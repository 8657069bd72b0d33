//! The library's top-level failure type.

use vstd::prelude::*;

verus! {

/// A failure surfaced to callers of the library, carrying its report text.
#[derive(Debug)]
pub enum Error {
    ParseError(String),
}

impl Error {
    /// The failure's report text.
    pub fn message(&self) -> (s: String)
        ensures
            (match self {
                Error::ParseError(m) => s@ == m@,
            }),
    {
        match self {
            Error::ParseError(m) => m.clone(),
        }
    }
}

} // verus!
