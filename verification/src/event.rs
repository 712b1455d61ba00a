//! The atomic change events of a move.
//!
//! Move application describes its effect as an ordered list of these
//! events; the incremental hash update folds the list into the position
//! fingerprint.  Events are plain values and are not stored by the
//! engine.

use vstd::prelude::*;
use crate::file::File;
use crate::piece::Piece;
use crate::side::Side;
use crate::square::Square;

verus! {

#[derive(Copy, Clone, Debug, PartialEq, Eq, Structural)]
pub enum Event {
    PieceLeftSquare(Side, Piece, Square),
    PieceEnteredSquare(Side, Piece, Square),
    NextTurn(Side),
    QueenCastlingRightLost(Side),
    KingCastlingRightLost(Side),
    EnPassantOpened(File),
    EnPassantClosed(File),
}

} // verus!
