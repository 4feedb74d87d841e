//! The errors the library reports.
use vstd::prelude::*;

verus! {

/// An error of the library, with its message.
#[derive(Debug)]
pub enum CommonError {
    /// An input does not have the structure that it must have.
    InvalidStructure(String),
    /// The library reached a state that it cannot go on from.
    InvalidState(String),
}

/// What a builder's result shows: the request text, or the message of an
/// `InvalidStructure` error (`None` for an `InvalidState` error).
pub open spec fn seen(r: Result<String, CommonError>) -> Option<Result<Seq<char>, Seq<char>>> {
    match r {
        Ok(s) => Some(Ok(s@)),
        Err(CommonError::InvalidStructure(m)) => Some(Err(m@)),
        Err(CommonError::InvalidState(_)) => None,
    }
}

} // verus!
