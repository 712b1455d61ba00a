//! The plain records a host around the engine publishes: a played
//! move, a board update with clock bookkeeping, a draw-offer change,
//! and the end of the game.  The engine itself never emits these; it
//! only supplies the values they carry.

use vstd::prelude::*;

verus! {

/// A move was played: the side's numeric code, the move text, and the
/// position after the move.
#[derive(Clone, Debug)]
pub struct PlayerMoved {
    pub side: u8,
    pub mov: String,
    pub fen: String,
}

/// The game ended: the winner's numeric side code, when there is one,
/// and the numeric reason code.
#[derive(Copy, Clone, Debug, PartialEq, Eq, Structural)]
pub struct GameOver {
    pub winner: Option<u8>,
    pub reason: u8,
}

/// The board changed: whose turn comes next, its clock deadline, the
/// move just played with the mover's clock balance, and the position.
#[derive(Clone, Debug)]
pub struct BoardUpdate {
    pub next_side: String,
    pub next_move_block_deadline: u32,
    pub last_move: String,
    pub last_side_blocks_left: u32,
    pub fen: String,
}

/// A draw offer was placed or withdrawn.
#[derive(Clone, Debug)]
pub struct DrawOfferUpdate {
    pub side: String,
    pub offer: bool,
    pub fen: String,
}

} // verus!
