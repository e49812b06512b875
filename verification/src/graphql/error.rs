//! The errors of the query helpers.

use vstd::prelude::*;

verus! {

/// Errors returned by the query helpers.
#[derive(Debug, PartialEq, Eq, Structural)]
pub enum Error {
    /// An optimistic-concurrency update matched no row: another writer
    /// changed the row first. Callers re-read the row and retry.
    Conflict,
}

impl Error {
    /// The error's text, as its `Display` form would give it.
    pub fn message(&self) -> (s: String)
        ensures
            *self == Error::Conflict ==> s@
                == "graphql: update precondition failed (no rows matched; concurrent modification)"@,
    {
        match self {
            Error::Conflict => String::from_str(
                "graphql: update precondition failed (no rows matched; concurrent modification)",
            ),
        }
    }
}

} // verus!
