//! The error type shared by every fallible operation of the engine.

use vstd::prelude::*;

verus! {

/// Errors reported by the engine.
///
/// `InvalidArgument` covers malformed FEN or move text, an empty origin
/// square, a move by the side not in turn, and a missing or impossible
/// promotion choice.  `IllegalMove` covers a destination outside the moving
/// piece's pseudo-legal set and a move that would leave the mover's own king
/// attacked.  `InvalidCaller` and `Other` are reserved for the host layer
/// around the engine.
#[derive(Copy, Clone, Debug, PartialEq, Eq, Structural)]
pub enum Error {
    InvalidArgument,
    IllegalMove,
    InvalidCaller,
    Other,
}

pub type Result<T> = core::result::Result<T, Error>;

impl Error {
    /// A short human-readable description of the error.
    pub fn description(&self) -> (r: &'static str)
        ensures
            r@ == self.spec_description(),
    {
        proof {
            reveal_strlit("invalid argument");
            reveal_strlit("illegal move");
            reveal_strlit("invalid caller");
            reveal_strlit("other");
        }
        match self {
            Error::InvalidArgument => "invalid argument",
            Error::IllegalMove => "illegal move",
            Error::InvalidCaller => "invalid caller",
            Error::Other => "other",
        }
    }

    pub open spec fn spec_description(&self) -> Seq<char> {
        match self {
            Error::InvalidArgument => "invalid argument"@,
            Error::IllegalMove => "illegal move"@,
            Error::InvalidCaller => "invalid caller"@,
            Error::Other => "other"@,
        }
    }
}

} // verus!
