//! What can go wrong.

use vstd::prelude::*;

verus! {

/// Why a request was refused.
#[derive(Clone, Debug, PartialEq, Eq)]
pub enum InferenceError {
    /// The input contradicts itself or is not supported; the text says how.
    Parse(String),
    /// A tensor that is needed is not there; the text is its name.
    MissingTensor(String),
}

/// An [`InferenceError`] by its characters.
pub enum Fault {
    Parse(Seq<char>),
    MissingTensor(Seq<char>),
}

/// Of two checks made in turn, what the first that fails reports.
pub open spec fn earlier(first: Option<Fault>, second: Option<Fault>) -> Option<Fault> {
    if first is Some {
        first
    } else {
        second
    }
}

impl View for InferenceError {
    type V = Fault;

    open spec fn view(&self) -> Fault {
        match self {
            InferenceError::Parse(message) => Fault::Parse(message@),
            InferenceError::MissingTensor(name) => Fault::MissingTensor(name@),
        }
    }
}

} // verus!
