//! The incremental position fingerprint.
//!
//! A position feature — a (side, piece, square) placement, a held
//! castling right, an open en-passant file, or white having the move —
//! owns one slot in a fixed table of 781 pseudorandom keys.  The hash
//! of a position is the exclusive-or of the keys of its features; a
//! move updates it by flipping the keys of the features it changed.
//! Equal positions always carry equal hashes.

use vstd::prelude::*;
use crate::board::{spec_piece_at, Board, BoardModel};
use crate::common::{Error, Result};
use crate::event::Event;
use crate::file::File;
use crate::piece::Piece;
use crate::side::Side;
use crate::square::Square;
use crate::state::{st_bit, State};

verus! {

broadcast use crate::square::lemma_square_bound;

/// The fixed pseudorandom key of a table slot: an integer mixing
/// function applied to the slot number.
pub open spec fn spec_zobrist_key(index: u32) -> u32 {
    let a = (index.wrapping_add(1)) ^ ((index.wrapping_add(1)) >> 16);
    let b = a.wrapping_mul(0x85eb_ca6b);
    let c = b ^ (b >> 13);
    let d = c.wrapping_mul(0xc2b2_ae35);
    d ^ (d >> 16)
}

/// The key of an integer slot number.
pub open spec fn key_at(index: int) -> u32 {
    spec_zobrist_key(index as u32)
}

/// The table slot of a placement feature: white placements fill slots
/// 0 through 383, black ones 384 through 767, each block ordered by
/// piece kind then square.
pub open spec fn piece_key_index(side: Side, piece: Piece, square: int) -> int {
    (match side {
        Side::White => 0int,
        Side::Black => 384int,
    }) + 64 * piece.spec_index() + square
}

/// The table slot of an open en-passant file: slots 768 through 775.
pub open spec fn en_passant_key_index(file_index: int) -> int {
    768 + file_index
}

/// The table slot of a held queen-side castling right: 776 or 777.
pub open spec fn queen_castling_key_index(side: Side) -> int {
    match side {
        Side::White => 776,
        Side::Black => 777,
    }
}

/// The table slot of a held king-side castling right: 778 or 779.
pub open spec fn king_castling_key_index(side: Side) -> int {
    match side {
        Side::White => 778,
        Side::Black => 779,
    }
}

/// The key contribution of one square: the key of the placement
/// standing there, or zero for an empty square.
pub open spec fn square_key(m: BoardModel, i: int) -> u32 {
    match spec_piece_at(m, i as u64) {
        None => 0u32,
        Some((side, piece)) => key_at(piece_key_index(side, piece, i)),
    }
}

/// The hash of the placements on squares below `n`.
pub open spec fn board_hash_upto(m: BoardModel, n: int) -> u32
    decreases n,
{
    if n <= 0 {
        0u32
    } else {
        board_hash_upto(m, n - 1) ^ square_key(m, n - 1)
    }
}

/// The hash of all placements of a board.
pub open spec fn board_hash(m: BoardModel) -> u32 {
    board_hash_upto(m, 64)
}

/// The table slot of flag bit `b` of the position flags: the open
/// en-passant files, then the four castling rights, then the turn.
pub open spec fn flag_key_index(b: int) -> int {
    if b < 8 {
        768 + b
    } else if b == 8 {
        776
    } else if b == 9 {
        778
    } else if b == 10 {
        777
    } else if b == 11 {
        779
    } else {
        780
    }
}

/// The key contribution of one flag bit.
pub open spec fn flag_key(s: u16, b: int) -> u32 {
    if st_bit(s, b as u16) {
        key_at(flag_key_index(b))
    } else {
        0u32
    }
}

/// The hash of the flag bits below `n`.
pub open spec fn state_hash_upto(s: u16, n: int) -> u32
    decreases n,
{
    if n <= 0 {
        0u32
    } else {
        state_hash_upto(s, n - 1) ^ flag_key(s, n - 1)
    }
}

/// The hash of all thirteen position flags.
pub open spec fn state_hash(s: u16) -> u32 {
    state_hash_upto(s, 13)
}

/// The from-scratch hash of a full position.
pub open spec fn position_hash(m: BoardModel, s: u16) -> u32 {
    board_hash(m) ^ state_hash(s)
}

/// One event's key flip.
pub open spec fn spec_event_flip(h: u32, event: Event) -> u32 {
    match event {
        Event::PieceLeftSquare(side, piece, square) => h ^ key_at(
            piece_key_index(side, piece, square@ as int),
        ),
        Event::PieceEnteredSquare(side, piece, square) => h ^ key_at(
            piece_key_index(side, piece, square@ as int),
        ),
        Event::NextTurn(_) => h ^ key_at(780),
        Event::QueenCastlingRightLost(side) => h ^ key_at(queen_castling_key_index(side)),
        Event::KingCastlingRightLost(side) => h ^ key_at(king_castling_key_index(side)),
        Event::EnPassantOpened(file) => h ^ key_at(en_passant_key_index(file.spec_index() as int)),
        Event::EnPassantClosed(file) => h ^ key_at(en_passant_key_index(file.spec_index() as int)),
    }
}

/// The hash after folding a whole event list, in order.
pub open spec fn spec_apply_events(h: u32, events: Seq<Event>) -> u32
    decreases events.len(),
{
    if events.len() == 0 {
        h
    } else {
        spec_event_flip(spec_apply_events(h, events.drop_last()), events.last())
    }
}

/// The number of values among the first `n` of `s` equal to `h`.
pub open spec fn count_hash(s: Seq<u32>, h: u32, n: int) -> int
    decreases n,
{
    if n <= 0 {
        0int
    } else {
        count_hash(s, h, n - 1) + if s[n - 1] == h {
            1int
        } else {
            0int
        }
    }
}

#[derive(Copy, Clone, Debug, PartialEq, Eq, Hash, Structural)]
pub struct ZobristHash(u32);

impl View for ZobristHash {
    type V = u32;

    closed spec fn view(&self) -> u32 {
        self.0
    }
}

impl ZobristHash {
    /// The table slot of white having the move.
    pub const WHITE_TURN_HASH_KEY_INDEX: usize = 780;

    /// The key of a table slot.
    pub fn zobrist_key(index: u32) -> (r: u32)
        ensures
            r == spec_zobrist_key(index),
    {
        let a = (index.wrapping_add(1)) ^ ((index.wrapping_add(1)) >> 16);
        let b = a.wrapping_mul(0x85eb_ca6b);
        let c = b ^ (b >> 13);
        let d = c.wrapping_mul(0xc2b2_ae35);
        d ^ (d >> 16)
    }

    /// The table slot of a placement feature.
    pub fn get_piece_hash_key_index(side: Side, piece: Piece, square: Square) -> (r: usize)
        ensures
            r == piece_key_index(side, piece, square@ as int),
            r < 768,
    {
        let base: usize = match side {
            Side::White => 0,
            Side::Black => 384,
        };
        base + 64 * (piece.to_index() as usize) + (square.to_index() as usize)
    }

    /// The table slot of an open en-passant file.
    pub fn get_en_passant_hash_key_index(file: File) -> (r: usize)
        ensures
            r == en_passant_key_index(file.spec_index() as int),
            768 <= r < 776,
    {
        768 + (file.to_index() as usize)
    }

    /// The table slot of a held queen-side castling right.
    pub fn get_queen_castling_right_hash_key_index(side: Side) -> (r: usize)
        ensures
            r == queen_castling_key_index(side),
    {
        match side {
            Side::White => 776,
            Side::Black => 777,
        }
    }

    /// The table slot of a held king-side castling right.
    pub fn get_king_castling_right_hash_key_index(side: Side) -> (r: usize)
        ensures
            r == king_castling_key_index(side),
    {
        match side {
            Side::White => 778,
            Side::Black => 779,
        }
    }

    /// The hash with no features folded in.
    pub fn zero() -> (r: ZobristHash)
        ensures
            r@ == 0u32,
    {
        ZobristHash(0)
    }

    /// The from-scratch hash of a full position.
    pub fn new(board: &Board, state: &State) -> (r: ZobristHash)
        ensures
            r@ == position_hash(board@, state@),
    {
        let mut hash: u32 = 0;
        let mut index: u8 = 0;
        while index < 64
            invariant
                index <= 64,
                hash == board_hash_upto(board@, index as int),
            decreases 64 - index,
        {
            let square = Square::from_index(index);
            match board.piece_at(square) {
                Some((side, piece)) => {
                    let slot = ZobristHash::get_piece_hash_key_index(side, piece, square);
                    hash = hash ^ ZobristHash::zobrist_key(slot as u32);
                },
                None => {
                    proof {
                        crate::bitboard::lemma_xor32(hash, 0, 0);
                    }
                },
            }
            index = index + 1;
        }
        let mut flags_hash: u32 = 0;
        let mut bit: u8 = 0;
        while bit < 13
            invariant
                bit <= 13,
                flags_hash == state_hash_upto(state@, bit as int),
            decreases 13 - bit,
        {
            if ((state.to_bits() >> (bit as u16)) & 1) == 1 {
                let slot: usize = if bit < 8 {
                    768 + (bit as usize)
                } else if bit == 8 {
                    776
                } else if bit == 9 {
                    778
                } else if bit == 10 {
                    777
                } else if bit == 11 {
                    779
                } else {
                    780
                };
                flags_hash = flags_hash ^ ZobristHash::zobrist_key(slot as u32);
            } else {
                proof {
                    crate::bitboard::lemma_xor32(flags_hash, 0, 0);
                }
            }
            bit = bit + 1;
        }
        ZobristHash(hash ^ flags_hash)
    }

    /// Flips a placement feature.
    pub fn flip_piece_position(&mut self, side: Side, piece: Piece, square: Square)
        ensures
            final(self)@ == (old(self)@ ^ key_at(piece_key_index(side, piece, square@ as int))),
    {
        let slot = ZobristHash::get_piece_hash_key_index(side, piece, square);
        self.0 = self.0 ^ ZobristHash::zobrist_key(slot as u32);
    }

    /// Flips an open en-passant file feature.
    pub fn flip_en_passant_file(&mut self, file: File)
        ensures
            final(self)@ == (old(self)@ ^ key_at(en_passant_key_index(file.spec_index() as int))),
    {
        let slot = ZobristHash::get_en_passant_hash_key_index(file);
        self.0 = self.0 ^ ZobristHash::zobrist_key(slot as u32);
    }

    /// Flips a held queen-side castling right feature.
    pub fn flip_queen_castling_right(&mut self, side: Side)
        ensures
            final(self)@ == (old(self)@ ^ key_at(queen_castling_key_index(side))),
    {
        let slot = ZobristHash::get_queen_castling_right_hash_key_index(side);
        self.0 = self.0 ^ ZobristHash::zobrist_key(slot as u32);
    }

    /// Flips a held king-side castling right feature.
    pub fn flip_king_castling_right(&mut self, side: Side)
        ensures
            final(self)@ == (old(self)@ ^ key_at(king_castling_key_index(side))),
    {
        let slot = ZobristHash::get_king_castling_right_hash_key_index(side);
        self.0 = self.0 ^ ZobristHash::zobrist_key(slot as u32);
    }

    /// Flips the side-to-move feature.
    pub fn flip_next_turn(&mut self)
        ensures
            final(self)@ == (old(self)@ ^ key_at(780)),
    {
        self.0 = self.0 ^ ZobristHash::zobrist_key(780);
    }

    /// Folds a whole event list into the hash, in order.
    pub fn apply(&self, events: &Vec<Event>) -> (r: ZobristHash)
        ensures
            r@ == spec_apply_events(self@, events@),
    {
        let mut hash = ZobristHash(self.0);
        let mut i: usize = 0;
        while i < events.len()
            invariant
                i <= events@.len(),
                hash@ == spec_apply_events(self@, events@.take(i as int)),
            decreases events@.len() - i,
        {
            proof {
                assert(events@.take(i + 1).drop_last() =~= events@.take(i as int));
            }
            match events[i] {
                Event::PieceLeftSquare(side, piece, square) => {
                    hash.flip_piece_position(side, piece, square);
                },
                Event::PieceEnteredSquare(side, piece, square) => {
                    hash.flip_piece_position(side, piece, square);
                },
                Event::NextTurn(_) => {
                    hash.flip_next_turn();
                },
                Event::QueenCastlingRightLost(side) => {
                    hash.flip_queen_castling_right(side);
                },
                Event::KingCastlingRightLost(side) => {
                    hash.flip_king_castling_right(side);
                },
                Event::EnPassantOpened(file) => {
                    hash.flip_en_passant_file(file);
                },
                Event::EnPassantClosed(file) => {
                    hash.flip_en_passant_file(file);
                },
            }
            i = i + 1;
        }
        proof {
            assert(events@.take(events@.len() as int) =~= events@);
        }
        hash
    }
}

/// The highest number of times any one hash occurs in a history.
pub fn max_repetition(history: &Vec<ZobristHash>) -> (r: usize)
    requires
        history@.len() > 0,
    ensures
        exists|k: int|
            0 <= k < history@.len() && r == count_hash(
                history@.map_values(|z: ZobristHash| z@),
                #[trigger] history@[k]@,
                history@.len() as int,
            ),
        forall|k: int|
            0 <= k < history@.len() ==> count_hash(
                history@.map_values(|z: ZobristHash| z@),
                #[trigger] history@[k]@,
                history@.len() as int,
            ) <= r,
{
    let ghost views = history@.map_values(|z: ZobristHash| z@);
    let n = history.len();
    let mut best: usize = 0;
    let mut i: usize = 0;
    while i < n
        invariant
            n == history@.len(),
            views == history@.map_values(|z: ZobristHash| z@),
            i <= n,
            i > 0 ==> exists|k: int|
                0 <= k < n && best == count_hash(views, #[trigger] history@[k]@, n as int),
            i == 0 ==> best == 0,
            forall|k: int|
                0 <= k < i ==> count_hash(views, #[trigger] history@[k]@, n as int) <= best,
        decreases n - i,
    {
        let target = history[i];
        let mut count: usize = 0;
        let mut j: usize = 0;
        while j < n
            invariant
                n == history@.len(),
                views == history@.map_values(|z: ZobristHash| z@),
                j <= n,
                count == count_hash(views, target@, j as int),
                count <= j,
            decreases n - j,
        {
            if history[j] == target {
                count = count + 1;
            }
            j = j + 1;
        }
        if count > best {
            best = count;
        }
        i = i + 1;
    }
    best
}

/// True when some position hash occurs at least three times in the
/// history: the threefold-repetition test over the hashes kept since
/// the last irreversible move.
pub fn is_repetition(history: &Vec<ZobristHash>) -> (r: bool)
    requires
        history@.len() > 0,
    ensures
        r == exists|k: int|
            0 <= k < history@.len() && count_hash(
                history@.map_values(|z: ZobristHash| z@),
                #[trigger] history@[k]@,
                history@.len() as int,
            ) >= 3,
{
    let best = max_repetition(history);
    best >= 3
}

} // verus!
