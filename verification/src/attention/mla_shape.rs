//! The geometry of one MLA layer, read off the dimensions of its tensors.

use vstd::prelude::*;
use vstd::string::*;

use crate::error;
use crate::error::{Fault, InferenceError};
use crate::tensor;
use crate::tensor::{expect_rank, LoadedGgufTensor};
use crate::text;
use crate::text::decimal_text;

verus! {

/// The widths of one MLA layer.
#[derive(Debug, Clone, Copy, PartialEq, Eq, Structural)]
pub struct Deepseek2MlaShape {
    pub hidden: usize,
    pub q_rank: usize,
    pub kv_rank: usize,
    pub heads: usize,
    pub qk_nope: usize,
    pub qk_rope: usize,
    pub v_dim: usize,
}

/// The tensors that an MLA layer is made of.
pub struct MlaFamily<T> {
    pub q_a: LoadedGgufTensor<T>,
    pub q_a_norm: LoadedGgufTensor<T>,
    pub q_b: LoadedGgufTensor<T>,
    pub kv_a: LoadedGgufTensor<T>,
    pub kv_a_norm: LoadedGgufTensor<T>,
    pub k_b: LoadedGgufTensor<T>,
    pub v_b: LoadedGgufTensor<T>,
    pub output: LoadedGgufTensor<T>,
}

impl<T> MlaFamily<T> {
    pub open spec fn hidden(&self) -> usize {
        self.q_a.dim(0)
    }

    pub open spec fn q_rank(&self) -> usize {
        self.q_a.dim(1)
    }

    pub open spec fn kv_rank(&self) -> usize {
        self.kv_a_norm.dim(0)
    }

    pub open spec fn heads(&self) -> usize {
        self.k_b.dim(2)
    }

    /// The side of the key tensor that is not the kv rank.
    pub open spec fn qk_nope(&self) -> usize {
        if self.k_b.dim(1) == self.kv_rank() {
            self.k_b.dim(0)
        } else {
            self.k_b.dim(1)
        }
    }

    /// What the kv projection gives beyond the kv rank.
    pub open spec fn qk_rope(&self) -> int {
        self.kv_a.dim(1) - self.kv_rank()
    }

    /// The side of the value tensor that is not the kv rank.
    pub open spec fn v_dim(&self) -> usize {
        if self.v_b.dim(0) == self.kv_rank() {
            self.v_b.dim(1)
        } else {
            self.v_b.dim(0)
        }
    }

    /// The width of all queries together.
    pub open spec fn q_width(&self) -> int {
        self.heads() * (self.qk_nope() + self.qk_rope())
    }

    /// The width of all values together.
    pub open spec fn v_width(&self) -> int {
        self.heads() * self.v_dim()
    }

    pub open spec fn q_rank_agrees(&self) -> bool {
        &&& self.q_a_norm.values@.len() == self.q_rank()
        &&& self.q_b.dim(0) == self.q_rank()
    }

    pub open spec fn kv_rank_agrees(&self) -> bool {
        &&& self.kv_a.dim(0) == self.hidden()
        &&& self.k_b.dim(0) == self.kv_rank() || self.k_b.dim(1) == self.kv_rank()
        &&& self.v_b.dim(0) == self.kv_rank() || self.v_b.dim(1) == self.kv_rank()
    }

    pub open spec fn output_agrees(&self) -> bool {
        &&& self.output.dim(0) == self.v_width()
        &&& self.output.dim(1) == self.hidden()
    }

    /// The first tensor with an unexpected rank.
    pub open spec fn ranks_fault(&self) -> Option<Fault> {
        error::earlier(
            tensor::rank_fault(self.q_a, 2),
            error::earlier(
                tensor::rank_fault(self.q_a_norm, 1),
                error::earlier(
                    tensor::rank_fault(self.q_b, 2),
                    error::earlier(
                        tensor::rank_fault(self.kv_a, 2),
                        error::earlier(
                            tensor::rank_fault(self.kv_a_norm, 1),
                            error::earlier(
                                tensor::rank_fault(self.k_b, 3),
                                error::earlier(
                                    tensor::rank_fault(self.v_b, 3),
                                    tensor::rank_fault(self.output, 2),
                                ),
                            ),
                        ),
                    ),
                ),
            ),
        )
    }

    /// The first way in which the dimensions contradict each other.
    pub open spec fn shape_fault(&self) -> Option<Fault> {
        if self.ranks_fault() is Some {
            self.ranks_fault()
        } else if self.qk_rope() < 0 {
            Some(Fault::Parse("kv_a output smaller than kv rank"@))
        } else if self.q_b.dim(1) != self.q_width() {
            Some(
                Fault::Parse(
                    "q_b output width "@ + text::decimal(self.q_b.dim(1) as nat) + " != heads "@
                        + text::decimal(self.heads() as nat) + " × (qk_nope "@ + text::decimal(
                        self.qk_nope() as nat,
                    ) + " + qk_rope "@ + text::decimal(self.qk_rope() as nat) + ")"@,
                ),
            )
        } else if !self.q_rank_agrees() {
            Some(Fault::Parse("q-rank tensor dimensions disagree"@))
        } else if !self.kv_rank_agrees() {
            Some(Fault::Parse("kv-rank tensor dimensions disagree"@))
        } else if !self.output_agrees() {
            Some(Fault::Parse("output projection dimensions disagree"@))
        } else {
            None
        }
    }

    /// The shape that the dimensions give.
    pub open spec fn shape(&self) -> Deepseek2MlaShape {
        Deepseek2MlaShape {
            hidden: self.hidden(),
            q_rank: self.q_rank(),
            kv_rank: self.kv_rank(),
            heads: self.heads(),
            qk_nope: self.qk_nope(),
            qk_rope: self.qk_rope() as usize,
            v_dim: self.v_dim(),
        }
    }

    /// The widths that the checks compute, as far as they get, fit in `usize`.
    pub open spec fn widths_fit(&self) -> bool {
        self.ranks_fault() is None && self.qk_rope() >= 0 ==> {
            &&& self.qk_nope() + self.qk_rope() <= usize::MAX
            &&& self.q_width() <= usize::MAX
            &&& self.q_b.dim(1) == self.q_width() && self.q_rank_agrees() && self.kv_rank_agrees()
                ==> self.v_width() <= usize::MAX
        }
    }
}

/// Reads the shape of a layer off its tensors, or says what does not fit together.
pub fn infer_shape<T>(
    q_a: &LoadedGgufTensor<T>,
    q_a_norm: &LoadedGgufTensor<T>,
    q_b: &LoadedGgufTensor<T>,
    kv_a: &LoadedGgufTensor<T>,
    kv_a_norm: &LoadedGgufTensor<T>,
    k_b: &LoadedGgufTensor<T>,
    v_b: &LoadedGgufTensor<T>,
    output: &LoadedGgufTensor<T>,
) -> (result: Result<Deepseek2MlaShape, InferenceError>)
    requires
        family_of(*q_a, *q_a_norm, *q_b, *kv_a, *kv_a_norm, *k_b, *v_b, *output).widths_fit(),
    ensures
        ({
            let family = family_of(*q_a, *q_a_norm, *q_b, *kv_a, *kv_a_norm, *k_b, *v_b, *output);
            match result {
                Ok(shape) => family.shape_fault() is None && shape == family.shape(),
                Err(error) => family.shape_fault() == Some(error@),
            }
        }),
{
    expect_rank(q_a, 2)?;
    expect_rank(q_a_norm, 1)?;
    expect_rank(q_b, 2)?;
    expect_rank(kv_a, 2)?;
    expect_rank(kv_a_norm, 1)?;
    expect_rank(k_b, 3)?;
    expect_rank(v_b, 3)?;
    expect_rank(output, 2)?;

    let hidden: usize = q_a.dims[0] as usize;
    let q_rank: usize = q_a.dims[1] as usize;
    let kv_rank: usize = kv_a_norm.dims[0] as usize;
    let heads: usize = k_b.dims[2] as usize;
    let qk_nope: usize = if k_b.dims[1] as usize == kv_rank {
        k_b.dims[0] as usize
    } else {
        k_b.dims[1] as usize
    };
    let kv_total: usize = kv_a.dims[1] as usize;
    if kv_total < kv_rank {
        return Err(InferenceError::Parse("kv_a output smaller than kv rank".to_owned()));
    }
    let qk_rope: usize = kv_total - kv_rank;
    let q_width: usize = q_b.dims[1] as usize;
    if q_width != heads * (qk_nope + qk_rope) {
        let mut message = "q_b output width ".to_owned();
        message.append(decimal_text(q_width).as_str());
        message.append(" != heads ");
        message.append(decimal_text(heads).as_str());
        message.append(" × (qk_nope ");
        message.append(decimal_text(qk_nope).as_str());
        message.append(" + qk_rope ");
        message.append(decimal_text(qk_rope).as_str());
        message.append(")");
        return Err(InferenceError::Parse(message));
    }
    let v_dim: usize = if v_b.dims[0] as usize == kv_rank {
        v_b.dims[1] as usize
    } else {
        v_b.dims[0] as usize
    };
    if q_a_norm.values.len() != q_rank || q_b.dims[0] as usize != q_rank {
        return Err(InferenceError::Parse("q-rank tensor dimensions disagree".to_owned()));
    }
    if kv_a.dims[0] as usize != hidden || !(k_b.dims[0] as usize == kv_rank || k_b.dims[1] as usize
        == kv_rank) || !(v_b.dims[0] as usize == kv_rank || v_b.dims[1] as usize == kv_rank) {
        return Err(InferenceError::Parse("kv-rank tensor dimensions disagree".to_owned()));
    }
    if output.dims[0] as usize != heads * v_dim || output.dims[1] as usize != hidden {
        return Err(InferenceError::Parse("output projection dimensions disagree".to_owned()));
    }
    Ok(Deepseek2MlaShape { hidden, q_rank, kv_rank, heads, qk_nope, qk_rope, v_dim })
}

/// Whether the shape of a layer can be read off its tensors without a width that leaves `usize`.
pub fn shape_is_computable<T>(
    q_a: &LoadedGgufTensor<T>,
    q_a_norm: &LoadedGgufTensor<T>,
    q_b: &LoadedGgufTensor<T>,
    kv_a: &LoadedGgufTensor<T>,
    kv_a_norm: &LoadedGgufTensor<T>,
    k_b: &LoadedGgufTensor<T>,
    v_b: &LoadedGgufTensor<T>,
    output: &LoadedGgufTensor<T>,
) -> (computable: bool)
    ensures
        computable == family_of(
            *q_a,
            *q_a_norm,
            *q_b,
            *kv_a,
            *kv_a_norm,
            *k_b,
            *v_b,
            *output,
        ).widths_fit(),
{
    let ghost family = family_of(*q_a, *q_a_norm, *q_b, *kv_a, *kv_a_norm, *k_b, *v_b, *output);
    if q_a.dims.len() != 2 || q_a_norm.dims.len() != 1 || q_b.dims.len() != 2 || kv_a.dims.len()
        != 2 || kv_a_norm.dims.len() != 1 || k_b.dims.len() != 3 || v_b.dims.len() != 3
        || output.dims.len() != 2 {
        return true;
    }
    let hidden: usize = q_a.dims[0] as usize;
    let q_rank: usize = q_a.dims[1] as usize;
    let kv_rank: usize = kv_a_norm.dims[0] as usize;
    let heads: usize = k_b.dims[2] as usize;
    let k_sides: (usize, usize) = (k_b.dims[0] as usize, k_b.dims[1] as usize);
    let v_sides: (usize, usize) = (v_b.dims[0] as usize, v_b.dims[1] as usize);
    let kv_total: usize = kv_a.dims[1] as usize;
    if kv_total < kv_rank {
        return true;
    }
    let qk_nope: usize = if k_sides.1 == kv_rank {
        k_sides.0
    } else {
        k_sides.1
    };
    let v_dim: usize = if v_sides.0 == kv_rank {
        v_sides.1
    } else {
        v_sides.0
    };
    match qk_nope.checked_add(kv_total - kv_rank) {
        None => false,
        Some(per_head) => match heads.checked_mul(per_head) {
            None => false,
            Some(q_width) => {
                let reached = q_b.dims[1] as usize == q_width && q_a_norm.values.len() == q_rank
                    && q_b.dims[0] as usize == q_rank && kv_a.dims[0] as usize == hidden && (
                k_sides.0 == kv_rank || k_sides.1 == kv_rank) && (v_sides.0 == kv_rank || v_sides.1
                    == kv_rank);
                assert(reached == (family.q_b.dim(1) == family.q_width() && family.q_rank_agrees()
                    && family.kv_rank_agrees()));
                !reached || heads.checked_mul(v_dim).is_some()
            },
        },
    }
}

/// The eight tensors together.
pub open spec fn family_of<T>(
    q_a: LoadedGgufTensor<T>,
    q_a_norm: LoadedGgufTensor<T>,
    q_b: LoadedGgufTensor<T>,
    kv_a: LoadedGgufTensor<T>,
    kv_a_norm: LoadedGgufTensor<T>,
    k_b: LoadedGgufTensor<T>,
    v_b: LoadedGgufTensor<T>,
    output: LoadedGgufTensor<T>,
) -> MlaFamily<T> {
    MlaFamily { q_a, q_a_norm, q_b, kv_a, kv_a_norm, k_b, v_b, output }
}

} // verus!
