//! Errors returned by the crate.

use vstd::prelude::*;

verus! {

/// Enumeration of all errors returned by the crate: a decode or
/// propagation fault, described by a message.
#[derive(Debug)]
pub enum Error {
    Msg(String),
}

impl Error {
    /// The error's message.
    pub fn message(&self) -> (r: &String)
        ensures
            *self == Error::Msg(*r),
    {
        match self {
            Error::Msg(m) => m,
        }
    }
}

} // verus!
