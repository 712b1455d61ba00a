//! A deterministic chess rules engine.
//!
//! The engine keeps a board position as eight overlapping 64-bit piece sets,
//! generates fully legal moves, applies a chosen move to produce a new
//! position, classifies terminal outcomes, and supports FEN text
//! serialization together with a compact binary move encoding.  Every state
//! transition is a pure function: an accepted move yields a fresh `Game`
//! value and the caller's old value is never touched.

pub mod common;
pub mod side;
pub mod piece;
pub mod file;
pub mod rank;
pub mod direction;
pub mod square;
pub mod bitboard;
pub mod board;
pub mod state;
pub mod event;
pub mod mov;
pub mod ply;
pub mod zobrist;
pub mod game;
pub mod fen;
pub mod laws;
pub mod gameover;
pub mod notice;

pub use bitboard::BitBoard;
pub use board::Board;
pub use event::Event;
pub use game::Game;
pub use gameover::GameOverReason;
pub use mov::Mov;
pub use ply::{Move, Ply, Promotion};
pub use state::State;
pub use zobrist::ZobristHash;
pub use common::{Error, Result};
pub use direction::Direction;
pub use file::File;
pub use piece::Piece;
pub use rank::Rank;
pub use side::Side;
pub use square::Square;
