//! Dequantized tensors.

use vstd::hash_map::StringHashMap;
use vstd::prelude::*;
use vstd::string::*;

use crate::error::{Fault, InferenceError};
use crate::text;
use crate::text::decimal_text;

verus! {

/// A tensor with its values, the first dimension varying fastest.
#[derive(Clone, Debug)]
pub struct LoadedGgufTensor<T> {
    pub name: String,
    pub dims: Vec<u64>,
    pub tensor_type: u32,
    pub values: Vec<T>,
}

impl<T> LoadedGgufTensor<T> {
    /// Dimension `i`, as a count.
    pub open spec fn dim(&self, i: int) -> usize {
        self.dims@[i] as usize
    }
}

/// The tensors of one attention layer, by name.
#[verifier::reject_recursive_types(T)]
pub struct Deepseek2AttentionLayerTensors<T> {
    pub layer: usize,
    pub tensors: StringHashMap<LoadedGgufTensor<T>>,
}

impl<T> Deepseek2AttentionLayerTensors<T> {
    /// Layer `layer` without tensors.
    pub fn new(layer: usize) -> (tensors: Self)
        ensures
            tensors.layer == layer,
            tensors.tensors@ == Map::<Seq<char>, LoadedGgufTensor<T>>::empty(),
    {
        Deepseek2AttentionLayerTensors { layer, tensors: StringHashMap::new() }
    }

    /// Keeps `tensor` under `name`, in place of one that was kept there before.
    pub fn insert(&mut self, name: String, tensor: LoadedGgufTensor<T>)
        ensures
            final(self).layer == old(self).layer,
            final(self).tensors@ == old(self).tensors@.insert(name@, tensor),
    {
        self.tensors.insert(name, tensor);
    }

    /// The tensor that is kept under `name`.
    pub fn get(&self, name: &str) -> (tensor: Option<&LoadedGgufTensor<T>>)
        ensures
            match tensor {
                Some(found) => self.tensors@.contains_key(name@) && *found == self.tensors@[name@],
                None => !self.tensors@.contains_key(name@),
            },
    {
        self.tensors.get(name)
    }
}

/// What is wrong with the number of dimensions of `tensor`, if `rank` of them are expected.
pub open spec fn rank_fault<T>(tensor: LoadedGgufTensor<T>, rank: nat) -> Option<Fault> {
    if tensor.dims@.len() == rank {
        None
    } else {
        Some(
            Fault::Parse(
                tensor.name@ + " rank "@ + text::decimal(tensor.dims@.len()) + " != expected "@
                    + text::decimal(rank),
            ),
        )
    }
}

/// Checks the number of dimensions of a tensor.
pub fn expect_rank<T>(tensor: &LoadedGgufTensor<T>, rank: usize) -> (result: Result<
    (),
    InferenceError,
>)
    ensures
        match result {
            Ok(_) => rank_fault(*tensor, rank as nat) is None,
            Err(error) => rank_fault(*tensor, rank as nat) == Some(error@),
        },
{
    if tensor.dims.len() == rank {
        Ok(())
    } else {
        let mut message = tensor.name.clone();
        message.append(" rank ");
        message.append(decimal_text(tensor.dims.len()).as_str());
        message.append(" != expected ");
        message.append(decimal_text(rank).as_str());
        Err(InferenceError::Parse(message))
    }
}

} // verus!
