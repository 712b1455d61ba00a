//! The game: a board, the packed position flags, the move counters and
//! the incremental position hash, with the move-application transition.
//!
//! A `Game` is an immutable value.  Applying a move builds a whole new
//! value; when the move is rejected the caller's value is untouched.

use vstd::prelude::*;
use crate::bitboard::{bit_at, sq_bb, BitBoard};
use crate::board::{
    occ_bb, side_bits, spec_clear_piece, spec_is_attacked, spec_is_king_attacked, spec_piece_at,
    spec_pseudo_legal_from, spec_set_piece, Board, BoardModel,
};
use crate::common::{Error, Result};
use crate::file::File;
use crate::mov::{Mov, MovModel};
use crate::piece::Piece;
use crate::side::Side;
use crate::square::Square;
use crate::state::{
    king_side_bit, queen_side_bit, spec_open_files, spec_turn, st_bit, st_with_bit, State,
};
use crate::zobrist::{
    en_passant_key_index, key_at, king_castling_key_index, piece_key_index,
    queen_castling_key_index, ZobristHash,
};

verus! {

broadcast use crate::square::lemma_square_bound;

/// The mathematical model of a game.
pub struct GameModel {
    pub board: BoardModel,
    pub state: u16,
    pub zobrist: u32,
    pub halfmove_clock: u32,
    pub fullmove_number: u32,
}

/// The counter bumped by one, stopping at its ceiling instead of
/// wrapping.
pub open spec fn sat_inc(x: u32) -> u32 {
    if x == 0xffff_ffffu32 {
        x
    } else {
        (x + 1) as u32
    }
}

/// The hash with the keys of the named files flipped, in order.
pub open spec fn flip_file_keys(z: u32, files: Seq<File>) -> u32
    decreases files.len(),
{
    if files.len() == 0 {
        z
    } else {
        flip_file_keys(z, files.drop_last()) ^ key_at(
            en_passant_key_index(files.last().spec_index() as int),
        )
    }
}

/// The home square of a side's king-side rook.
pub open spec fn ks_rook_home(side: Side) -> u64 {
    match side {
        Side::White => 7,
        Side::Black => 63,
    }
}

/// The home square of a side's queen-side rook.
pub open spec fn qs_rook_home(side: Side) -> u64 {
    match side {
        Side::White => 0,
        Side::Black => 56,
    }
}

/// The home square of a side's king.
pub open spec fn king_home(side: Side) -> u64 {
    match side {
        Side::White => 4,
        Side::Black => 60,
    }
}

/// The board and hash after lifting a piece off `from` and putting
/// `piece_in` down on `to`.
pub open spec fn spec_move_piece(
    b: BoardModel,
    z: u32,
    side: Side,
    piece_out: Piece,
    piece_in: Piece,
    from: u64,
    to: u64,
) -> (BoardModel, u32) {
    let b2 = spec_set_piece(spec_clear_piece(b, from), side, piece_in, to);
    let z2 = (z ^ key_at(piece_key_index(side, piece_out, from as int))) ^ key_at(
        piece_key_index(side, piece_in, to as int),
    );
    (b2, z2)
}

/// One dispatch step: the new board, flags, hash and half-move clock,
/// and whether the move captured.
type StepResult = Result<(BoardModel, u16, u32, u32, bool)>;

/// The pawn dispatch case: double push, capture (plain or en passant),
/// promotion, and the plain push.
pub open spec fn spec_pawn_step(
    b: BoardModel,
    s1: u16,
    z1: u32,
    halfmove0: u32,
    side: Side,
    opponent: Side,
    m: MovModel,
) -> StepResult {
    let from = m.from as u64;
    let to = m.to as u64;
    let rank_from = from / 8;
    let rank_to = to / 8;
    if (rank_from == 1 && rank_to == 3) || (rank_from == 6 && rank_to == 4) {
        let file = to % 8;
        let s2 = st_with_bit(s1, file as u16, true);
        let z2 = z1 ^ key_at(en_passant_key_index(file as int));
        let moved = spec_move_piece(b, z2, side, Piece::Pawn, Piece::Pawn, from, to);
        Ok((moved.0, s2, moved.1, 0u32, false))
    } else {
        let is_capture = from % 8 != to % 8;
        if is_capture {
            let en_passant = (sq_bb(to) & side_bits(b, opponent)) == 0;
            if en_passant && side == Side::White && to < 8 {
                Err(Error::InvalidArgument)
            } else if en_passant && side == Side::Black && to >= 56 {
                Err(Error::InvalidArgument)
            } else {
                let captured_square = if en_passant {
                    if side == Side::White {
                        (to - 8) as u64
                    } else {
                        (to + 8) as u64
                    }
                } else {
                    to
                };
                match spec_piece_at(b, captured_square) {
                    None => Err(Error::InvalidArgument),
                    Some((_, captured_piece)) => {
                        let b1 = spec_clear_piece(b, captured_square);
                        let z2 = z1 ^ key_at(
                            piece_key_index(opponent, captured_piece, captured_square as int),
                        );
                        spec_pawn_place(b1, s1, z2, side, m)
                    },
                }
            }
        } else {
            spec_pawn_place(b, s1, z1, side, m)
        }
    }
}

/// Placing the pawn, or its promotion piece on the farthest rank.
pub open spec fn spec_pawn_place(b: BoardModel, s1: u16, z1: u32, side: Side, m: MovModel) -> StepResult {
    let from = m.from as u64;
    let to = m.to as u64;
    let rank_to = to / 8;
    if rank_to == 7 || rank_to == 0 {
        match m.promotion {
            None => Err(Error::InvalidArgument),
            Some(Piece::Pawn) => Err(Error::InvalidArgument),
            Some(Piece::King) => Err(Error::InvalidArgument),
            Some(new_piece) => {
                let moved = spec_move_piece(b, z1, side, Piece::Pawn, new_piece, from, to);
                Ok((moved.0, s1, moved.1, 0u32, from % 8 != to % 8))
            },
        }
    } else {
        let moved = spec_move_piece(b, z1, side, Piece::Pawn, Piece::Pawn, from, to);
        Ok((moved.0, s1, moved.1, 0u32, from % 8 != to % 8))
    }
}

/// The king dispatch case: rights revocation, capture, and castling
/// rook relocation.
pub open spec fn spec_king_step(
    b: BoardModel,
    s1: u16,
    z1: u32,
    halfmove0: u32,
    side: Side,
    opponent: Side,
    old_state: u16,
    m: MovModel,
) -> StepResult {
    let from = m.from as u64;
    let to = m.to as u64;
    let had_ks = st_bit(old_state, king_side_bit(side));
    let s2 = if had_ks {
        st_with_bit(s1, king_side_bit(side), false)
    } else {
        s1
    };
    let z2 = if had_ks {
        z1 ^ key_at(king_castling_key_index(side))
    } else {
        z1
    };
    let had_qs = st_bit(old_state, queen_side_bit(side));
    let s3 = if had_qs {
        st_with_bit(s2, queen_side_bit(side), false)
    } else {
        s2
    };
    let z3 = if had_qs {
        z2 ^ key_at(queen_castling_key_index(side))
    } else {
        z2
    };
    if (sq_bb(to) & side_bits(b, opponent)) != 0 {
        match spec_piece_at(b, to) {
            None => Err(Error::InvalidArgument),
            Some((_, captured_piece)) => {
                let b1 = spec_clear_piece(b, to);
                let z4 = z3 ^ key_at(piece_key_index(opponent, captured_piece, to as int));
                let moved = spec_move_piece(b1, z4, side, Piece::King, Piece::King, from, to);
                Ok((moved.0, s3, moved.1, 0u32, true))
            },
        }
    } else {
        let castled = if from == king_home(side) && to == king_home(side) + 2 {
            let rook_from = ks_rook_home(side);
            let rook_to = (king_home(side) + 1) as u64;
            let moved = spec_move_piece(b, z3, side, Piece::Rook, Piece::Rook, rook_from, rook_to);
            (moved.0, moved.1)
        } else if from == king_home(side) && to == (king_home(side) - 2) as u64 {
            let rook_from = qs_rook_home(side);
            let rook_to = (king_home(side) - 1) as u64;
            let moved = spec_move_piece(b, z3, side, Piece::Rook, Piece::Rook, rook_from, rook_to);
            (moved.0, moved.1)
        } else {
            (b, z3)
        };
        let moved = spec_move_piece(castled.0, castled.1, side, Piece::King, Piece::King, from, to);
        Ok((moved.0, s3, moved.1, halfmove0, false))
    }
}

/// The knight, bishop and queen dispatch case: plain capture and
/// relocation.
pub open spec fn spec_simple_step(
    b: BoardModel,
    s1: u16,
    z1: u32,
    halfmove0: u32,
    side: Side,
    opponent: Side,
    piece: Piece,
    m: MovModel,
) -> StepResult {
    let from = m.from as u64;
    let to = m.to as u64;
    if (sq_bb(to) & side_bits(b, opponent)) != 0 {
        match spec_piece_at(b, to) {
            None => Err(Error::InvalidArgument),
            Some((_, captured_piece)) => {
                let b1 = spec_clear_piece(b, to);
                let z2 = z1 ^ key_at(piece_key_index(opponent, captured_piece, to as int));
                let moved = spec_move_piece(b1, z2, side, piece, piece, from, to);
                Ok((moved.0, s1, moved.1, 0u32, true))
            },
        }
    } else {
        let moved = spec_move_piece(b, z1, side, piece, piece, from, to);
        Ok((moved.0, s1, moved.1, halfmove0, false))
    }
}

/// The rook dispatch case: a plain capture step, plus revocation of the
/// castling right of the wing whose home square the rook leaves.
pub open spec fn spec_rook_step(
    b: BoardModel,
    s1: u16,
    z1: u32,
    halfmove0: u32,
    side: Side,
    opponent: Side,
    old_state: u16,
    m: MovModel,
) -> StepResult {
    let to = m.to as u64;
    if (sq_bb(to) & side_bits(b, opponent)) != 0 {
        match spec_piece_at(b, to) {
            None => Err(Error::InvalidArgument),
            Some((_, captured_piece)) => {
                let b1 = spec_clear_piece(b, to);
                let z2 = z1 ^ key_at(piece_key_index(opponent, captured_piece, to as int));
                spec_rook_finish(b1, s1, z2, 0u32, side, old_state, m, true)
            },
        }
    } else {
        spec_rook_finish(b, s1, z1, halfmove0, side, old_state, m, false)
    }
}

/// The tail of the rook case: the wing right is revoked when the rook
/// leaves its home square, then the rook is relocated.
pub open spec fn spec_rook_finish(
    b: BoardModel,
    s1: u16,
    z1: u32,
    halfmove: u32,
    side: Side,
    old_state: u16,
    m: MovModel,
    captured: bool,
) -> StepResult {
    let from = m.from as u64;
    let to = m.to as u64;
    let revoke_ks = from == ks_rook_home(side) && st_bit(old_state, king_side_bit(side));
    let revoke_qs = !revoke_ks && from == qs_rook_home(side) && st_bit(
        old_state,
        queen_side_bit(side),
    );
    let s2 = if revoke_ks {
        st_with_bit(s1, king_side_bit(side), false)
    } else if revoke_qs {
        st_with_bit(s1, queen_side_bit(side), false)
    } else {
        s1
    };
    let z2 = if revoke_ks {
        z1 ^ key_at(king_castling_key_index(side))
    } else if revoke_qs {
        z1 ^ key_at(queen_castling_key_index(side))
    } else {
        z1
    };
    let moved = spec_move_piece(b, z2, side, Piece::Rook, Piece::Rook, from, to);
    Ok((moved.0, s2, moved.1, halfmove, captured))
}

/// The whole pseudo-legal transition: reject a move from an empty
/// square or by the side not in turn, close the open en-passant files,
/// flip the turn, dispatch on the moving piece, and revoke the
/// opponent's castling right when its rook is captured at home.
///
/// Phase-two legality (king safety) is not checked here.
#[verifier::opaque]
pub open spec fn spec_make_pseudo(g: GameModel, m: MovModel) -> Result<GameModel> {
    match spec_piece_at(g.board, m.from as u64) {
        None => Err(Error::InvalidArgument),
        Some((side, piece)) => {
            if side != spec_turn(g.state) {
                Err(Error::InvalidArgument)
            } else {
                let opponent = side.spec_flip();
                let halfmove0 = sat_inc(g.halfmove_clock);
                let fullmove1 = if side == Side::Black {
                    sat_inc(g.fullmove_number)
                } else {
                    g.fullmove_number
                };
                let s1 = st_with_bit((g.state & 0xff00) as u16, 12, opponent == Side::White);
                let z1 = flip_file_keys(g.zobrist, spec_open_files(g.state, 8)) ^ key_at(780);
                let step = match piece {
                    Piece::Pawn => spec_pawn_step(g.board, s1, z1, halfmove0, side, opponent, m),
                    Piece::King => spec_king_step(
                        g.board,
                        s1,
                        z1,
                        halfmove0,
                        side,
                        opponent,
                        g.state,
                        m,
                    ),
                    Piece::Rook => spec_rook_step(
                        g.board,
                        s1,
                        z1,
                        halfmove0,
                        side,
                        opponent,
                        g.state,
                        m,
                    ),
                    _ => spec_simple_step(g.board, s1, z1, halfmove0, side, opponent, piece, m),
                };
                match step {
                    Err(e) => Err(e),
                    Ok((b2, s2, z2, h2, captured)) => {
                        let to = m.to as u64;
                        let hit_qs = captured && to == qs_rook_home(opponent) && st_bit(
                            s2,
                            queen_side_bit(opponent),
                        );
                        let hit_ks = !hit_qs && captured && to == ks_rook_home(opponent) && st_bit(
                            s2,
                            king_side_bit(opponent),
                        );
                        let s3 = if hit_qs {
                            st_with_bit(s2, queen_side_bit(opponent), false)
                        } else if hit_ks {
                            st_with_bit(s2, king_side_bit(opponent), false)
                        } else {
                            s2
                        };
                        let z3 = if hit_qs {
                            z2 ^ key_at(queen_castling_key_index(opponent))
                        } else if hit_ks {
                            z2 ^ key_at(king_castling_key_index(opponent))
                        } else {
                            z2
                        };
                        Ok(
                            GameModel {
                                board: b2,
                                state: s3,
                                zobrist: z3,
                                halfmove_clock: h2,
                                fullmove_number: fullmove1,
                            },
                        )
                    },
                }
            }
        },
    }
}

/// The pseudo-legal destination set of the piece at `from`, under the
/// current turn's castling rights and the open en-passant files.
#[verifier::opaque]
pub open spec fn spec_game_pseudo_targets(g: GameModel, from: u64) -> u64 {
    spec_pseudo_legal_from(
        g.board,
        from,
        st_bit(g.state, king_side_bit(spec_turn(g.state))),
        st_bit(g.state, queen_side_bit(spec_turn(g.state))),
        spec_open_files(g.state, 8),
    )
}

/// The whole move transition.  An empty origin square, or one held by
/// the side not in turn, is an invalid argument; after that the
/// destination must lie in the pseudo-legal set, the transition must
/// go through, both kings must survive, and the mover's king must not
/// stand attacked, else the move is illegal.
pub open spec fn spec_make_move(g: GameModel, m: MovModel) -> Result<GameModel> {
    match spec_piece_at(g.board, m.from as u64) {
        None => Err(Error::InvalidArgument),
        Some((side, _)) => {
            if side != spec_turn(g.state) {
                Err(Error::InvalidArgument)
            } else if !bit_at(spec_game_pseudo_targets(g, m.from as u64), m.to as u64) {
                Err(Error::IllegalMove)
            } else {
                match spec_make_pseudo(g, m) {
                    Err(e) => Err(e),
                    Ok(g2) => {
                        if (g2.board.white & g2.board.kings) == 0 || (g2.board.black
                            & g2.board.kings) == 0 {
                            Err(Error::IllegalMove)
                        } else if spec_is_king_attacked(g2.board, spec_turn(g.state)) {
                            Err(Error::IllegalMove)
                        } else {
                            Ok(g2)
                        }
                    },
                }
            }
        },
    }
}

/// The material weight a piece adds to its side's score.
pub open spec fn piece_weight(piece: Piece) -> int {
    match piece {
        Piece::Knight => 1,
        Piece::Bishop => 1,
        Piece::Pawn => 2,
        Piece::Rook => 2,
        Piece::Queen => 2,
        Piece::King => 0,
    }
}

/// The material score of a side over the squares below `n`.
pub open spec fn score_upto(m: BoardModel, side: Side, n: int) -> int
    decreases n,
{
    if n <= 0 {
        0int
    } else {
        score_upto(m, side, n - 1) + match spec_piece_at(m, (n - 1) as u64) {
            Some((s, p)) => if s == side {
                piece_weight(p)
            } else {
                0int
            },
            None => 0int,
        }
    }
}

/// True when either side scores above one: the engine's sufficient
/// mating material test.
pub open spec fn spec_sufficient_material(m: BoardModel) -> bool {
    score_upto(m, Side::White, 64) > 1 || score_upto(m, Side::Black, 64) > 1
}

/// A move that the whole transition accepts from position `g`.
#[verifier::opaque]
pub open spec fn spec_is_legal(g: GameModel, m: MovModel) -> bool {
    &&& bit_at(spec_game_pseudo_targets(g, m.from as u64), m.to as u64)
    &&& match spec_make_pseudo(g, m) {
        Err(_) => false,
        Ok(g2) => (g2.board.white & g2.board.kings) != 0 && (g2.board.black & g2.board.kings) != 0
            && !spec_is_king_attacked(g2.board, spec_turn(g.state)),
    }
}

/// A pawn standing on `m.from` and headed for the farthest rank: the
/// only situation in which the promotion choice matters.
pub open spec fn is_promo_situation(g: GameModel, m: MovModel) -> bool {
    bit_at(g.board.pawns, m.from as u64) && (m.to / 8 == 7 || m.to / 8 == 0)
}

/// A move in generated shape: it names a promotion piece only where
/// one matters.
pub open spec fn promo_shape(g: GameModel, m: MovModel) -> bool {
    is_promo_situation(g, m) || m.promotion is None
}

/// The move with a superfluous promotion choice dropped.
pub open spec fn normalize_mov(g: GameModel, m: MovModel) -> MovModel {
    if is_promo_situation(g, m) {
        m
    } else {
        MovModel { from: m.from, to: m.to, promotion: None }
    }
}

/// True when some move in the list has the given model.
pub open spec fn contains_mov(s: Seq<Mov>, m: MovModel) -> bool {
    exists|k: int| 0 <= k < s.len() && s[k]@ == m
}

/// Dropping a superfluous promotion choice changes nothing about a
/// move's application, hence nothing about its legality.
#[verifier::rlimit(100)]
pub proof fn lemma_normalize_legal(g: GameModel, m: MovModel)
    requires
        spec_is_legal(g, m),
    ensures
        spec_is_legal(g, normalize_mov(g, m)),
        promo_shape(g, normalize_mov(g, m)),
        normalize_mov(g, m).from == m.from,
{
    reveal(spec_is_legal);
    reveal(spec_make_pseudo);
    if !is_promo_situation(g, m) {
        let m2 = normalize_mov(g, m);
        assert(spec_make_pseudo(g, m2) == spec_make_pseudo(g, m));
    }
}

/// A legal promoting move names one of the four promotion pieces.
#[verifier::rlimit(100)]
pub proof fn lemma_promo_pieces(g: GameModel, m: MovModel)
    requires
        spec_is_legal(g, m),
        is_promo_situation(g, m),
    ensures
        m.promotion == Some(Piece::Knight) || m.promotion == Some(Piece::Bishop) || m.promotion
            == Some(Piece::Rook) || m.promotion == Some(Piece::Queen),
{
    reveal(spec_is_legal);
    reveal(spec_make_pseudo);
    assert(spec_make_pseudo(g, m) is Ok);
}

/// A legal move starts on a square held by the side to move.
pub proof fn lemma_legal_from_own(g: GameModel, m: MovModel)
    requires
        spec_is_legal(g, m),
    ensures
        bit_at(side_bits(g.board, spec_turn(g.state)), m.from as u64),
{
    reveal(spec_is_legal);
    reveal(spec_make_pseudo);
    assert(spec_make_pseudo(g, m) is Ok);
}

#[derive(Copy, Clone, Debug)]
pub struct Game {
    board: Board,
    state: State,
    zobrist: ZobristHash,
    halfmove_clock: u32,
    fullmove_number: u32,
}

impl View for Game {
    type V = GameModel;

    closed spec fn view(&self) -> GameModel {
        GameModel {
            board: self.board@,
            state: self.state@,
            zobrist: self.zobrist@,
            halfmove_clock: self.halfmove_clock,
            fullmove_number: self.fullmove_number,
        }
    }
}

impl Game {
    /// Builds a game from parts; the hash is computed from scratch.
    pub fn assemble(board: Board, state: State, halfmove_clock: u32, fullmove_number: u32) -> (r:
        Game)
        ensures
            r@.board == board@,
            r@.state == state@,
            r@.halfmove_clock == halfmove_clock,
            r@.fullmove_number == fullmove_number,
            r@.zobrist == crate::zobrist::position_hash(board@, state@),
    {
        let zobrist = ZobristHash::new(&board, &state);
        Game { board, state, zobrist, halfmove_clock, fullmove_number }
    }

    /// The board.
    pub fn board(&self) -> (r: &Board)
        ensures
            r@ == self@.board,
    {
        &self.board
    }

    /// The position flags.
    pub fn state(&self) -> (r: &State)
        ensures
            r@ == self@.state,
    {
        &self.state
    }

    /// The position fingerprint.
    pub fn zobrist(&self) -> (r: ZobristHash)
        ensures
            r@ == self@.zobrist,
    {
        self.zobrist
    }

    /// Half-moves since the last pawn move or capture.
    pub fn halfmove_clock(&self) -> (r: u32)
        ensures
            r == self@.halfmove_clock,
    {
        self.halfmove_clock
    }

    /// The full-move number, bumped after each black move.
    pub fn fullmove_number(&self) -> (r: u32)
        ensures
            r == self@.fullmove_number,
    {
        self.fullmove_number
    }

    /// The side to move.
    pub fn next_turn_side(&self) -> (r: Side)
        ensures
            r == spec_turn(self@.state),
    {
        self.state.next_turn_side()
    }

    /// True when the side to move stands in check.  The side to move
    /// must still have a king on the board.
    pub fn is_check(&self) -> (r: bool)
        requires
            (side_bits(self@.board, spec_turn(self@.state)) & self@.board.kings) != 0,
        ensures
            r == spec_is_king_attacked(self@.board, spec_turn(self@.state)),
    {
        self.board.is_king_attacked(self.state.next_turn_side())
    }

    /// True when either side still scores above one on the material
    /// scale: knights and bishops count one, pawns, rooks and queens
    /// two, kings nothing.
    pub fn has_sufficient_mating_material(&self) -> (r: bool)
        ensures
            r == spec_sufficient_material(self@.board),
    {
        let mut white_score: u32 = 0;
        let mut black_score: u32 = 0;
        let mut index: u8 = 0;
        while index < 64
            invariant
                index <= 64,
                white_score == score_upto(self@.board, Side::White, index as int),
                black_score == score_upto(self@.board, Side::Black, index as int),
                white_score <= 1 && black_score <= 1,
            decreases 64 - index,
        {
            let square = Square::from_index(index);
            match self.board.piece_at(square) {
                Some((side, piece)) => {
                    let weight: u32 = match piece {
                        Piece::Knight => 1,
                        Piece::Bishop => 1,
                        Piece::Pawn => 2,
                        Piece::Rook => 2,
                        Piece::Queen => 2,
                        Piece::King => 0,
                    };
                    match side {
                        Side::White => {
                            white_score = white_score + weight;
                        },
                        Side::Black => {
                            black_score = black_score + weight;
                        },
                    }
                },
                None => (),
            }
            if white_score > 1 || black_score > 1 {
                proof {
                    if white_score > 1 {
                        lemma_score_monotone(self@.board, Side::White, (index + 1) as int, 64);
                    } else {
                        lemma_score_monotone(self@.board, Side::Black, (index + 1) as int, 64);
                    }
                }
                return true;
            }
            index = index + 1;
        }
        false
    }

    /// The pseudo-legal destination set of the piece at `from`, under
    /// the current position flags.
    pub fn pseudo_legal_moves_from(&self, from: Square) -> (r: BitBoard)
        ensures
            r@ == spec_game_pseudo_targets(self@, from@ as u64),
    {
        proof {
            reveal(spec_game_pseudo_targets);
        }
        let side = self.state.next_turn_side();
        self.board.pseudo_legal_moves_from(
            from,
            self.state.king_side_castling_right(side),
            self.state.queen_side_castling_right(side),
            self.state.en_passant_open_files(),
        )
    }

    /// Applies a move without the king-safety check: the parts of the
    /// next position, or the rejection.
    pub fn make_pseudo_legal_move(&self, mov: &Mov) -> (r: Result<
        (Board, State, ZobristHash, u32, u32),
    >)
        ensures
            (r matches Ok(t) ==> spec_make_pseudo(self@, mov@) == Ok::<GameModel, Error>(
                GameModel {
                    board: t.0@,
                    state: t.1@,
                    zobrist: t.2@,
                    halfmove_clock: t.3,
                    fullmove_number: t.4,
                },
            )),
            (r matches Err(e) ==> spec_make_pseudo(self@, mov@) == Err::<GameModel, Error>(e)),
    {
        proof {
            reveal(spec_make_pseudo);
        }
        let (side, piece) = match self.board.piece_at(mov.from()) {
            Some(sp) => sp,
            None => {
                return Err(Error::InvalidArgument);
            },
        };
        if side.to_index() != self.state.next_turn_side().to_index() {
            return Err(Error::InvalidArgument);
        }
        let to = mov.to();
        let opponent = side.flip();
        let opponent_pieces = self.board.pieces_by_side(opponent);

        let mut board_new = self.board;
        let mut state_new = self.state;
        let mut zhash_new = self.zobrist;
        let halfmove0: u32 = if self.halfmove_clock == 0xffff_ffff {
            0xffff_ffff
        } else {
            self.halfmove_clock + 1
        };
        let fullmove_number_new: u32 = match side {
            Side::White => self.fullmove_number,
            Side::Black => {
                if self.fullmove_number == 0xffff_ffff {
                    0xffff_ffff
                } else {
                    self.fullmove_number + 1
                }
            },
        };

        // Close the open en-passant files and flip their keys.
        state_new.reset_en_passant_open_files();
        let open_files = self.state.en_passant_open_files();
        let mut fi: usize = 0;
        while fi < open_files.len()
            invariant
                fi <= open_files@.len(),
                zhash_new@ == flip_file_keys(self@.zobrist, open_files@.take(fi as int)),
            decreases open_files@.len() - fi,
        {
            proof {
                assert(open_files@.take(fi + 1).drop_last() =~= open_files@.take(fi as int));
            }
            zhash_new.flip_en_passant_file(open_files[fi]);
            fi = fi + 1;
        }
        proof {
            assert(open_files@.take(open_files@.len() as int) =~= open_files@);
        }

        // Switch turns.
        state_new.set_next_turn_side(opponent);
        zhash_new.flip_next_turn();

        let step = match piece {
            Piece::Pawn => Game::apply_pawn(
                &mut board_new,
                &mut state_new,
                &mut zhash_new,
                side,
                opponent,
                opponent_pieces,
                mov,
            ),
            Piece::King => Game::apply_king(
                &mut board_new,
                &mut state_new,
                &mut zhash_new,
                side,
                opponent,
                opponent_pieces,
                halfmove0,
                &self.state,
                mov,
            ),
            Piece::Rook => Game::apply_rook(
                &mut board_new,
                &mut state_new,
                &mut zhash_new,
                side,
                opponent,
                opponent_pieces,
                halfmove0,
                &self.state,
                mov,
            ),
            _ => Game::apply_simple(
                &mut board_new,
                &mut state_new,
                &mut zhash_new,
                side,
                opponent,
                opponent_pieces,
                halfmove0,
                piece,
                mov,
            ),
        };
        let (halfmove_clock_new, is_capture) = match step {
            Ok(pair) => pair,
            Err(e) => {
                return Err(e);
            },
        };

        // A capture on the opponent's rook home square takes that
        // wing's castling right with it.
        if is_capture {
            let (op_qs_rook_origin, op_ks_rook_origin): (u8, u8) = match opponent {
                Side::White => (0, 7),
                Side::Black => (56, 63),
            };
            if to.to_index() == op_qs_rook_origin && state_new.queen_side_castling_right(
                opponent,
            ) {
                state_new.set_queen_side_castling_right(opponent, false);
                zhash_new.flip_queen_castling_right(opponent);
            } else if to.to_index() == op_ks_rook_origin && state_new.king_side_castling_right(
                opponent,
            ) {
                state_new.set_king_side_castling_right(opponent, false);
                zhash_new.flip_king_castling_right(opponent);
            }
        }

        Ok((board_new, state_new, zhash_new, halfmove_clock_new, fullmove_number_new))
    }

    /// The pawn dispatch case of move application.
    fn apply_pawn(
        board: &mut Board,
        state: &mut State,
        zhash: &mut ZobristHash,
        side: Side,
        opponent: Side,
        opponent_pieces: BitBoard,
        mov: &Mov,
    ) -> (r: Result<(u32, bool)>)
        requires
            opponent_pieces@ == side_bits(old(board)@, opponent),
        ensures
            (r matches Ok(pair) ==> spec_pawn_step(
                old(board)@,
                old(state)@,
                old(zhash)@,
                0u32,
                side,
                opponent,
                mov@,
            ) == Ok::<(BoardModel, u16, u32, u32, bool), Error>(
                (final(board)@, final(state)@, final(zhash)@, pair.0, pair.1),
            )),
            (r matches Err(e) ==> spec_pawn_step(
                old(board)@,
                old(state)@,
                old(zhash)@,
                0u32,
                side,
                opponent,
                mov@,
            ) == Err::<(BoardModel, u16, u32, u32, bool), Error>(e)),
    {
        let from = mov.from();
        let to = mov.to();
        let mut is_capture = false;
        let rank_from = from.to_index() / 8;
        let rank_to = to.to_index() / 8;
        if (rank_from == 1 && rank_to == 3) || (rank_from == 6 && rank_to == 4) {
            let file = to.file();
            state.set_en_passant_open(file, true);
            zhash.flip_en_passant_file(file);
            board.clear_piece(from);
            board.set_piece(side, Piece::Pawn, to);
            zhash.flip_piece_position(side, Piece::Pawn, from);
            zhash.flip_piece_position(side, Piece::Pawn, to);
            return Ok((0, false));
        }
        if from.to_index() % 8 != to.to_index() % 8 {
            is_capture = true;
            let en_passant = BitBoard::square(to).intersect(opponent_pieces).is_empty();
            let captured_square = if en_passant {
                let index = to.to_index();
                match side {
                    Side::White => {
                        if index < 8 {
                            return Err(Error::InvalidArgument);
                        }
                        Square::from_index(index - 8)
                    },
                    Side::Black => {
                        if index >= 56 {
                            return Err(Error::InvalidArgument);
                        }
                        Square::from_index(index + 8)
                    },
                }
            } else {
                to
            };
            let captured_piece = match board.piece_at(captured_square) {
                Some((_, cp)) => cp,
                None => {
                    return Err(Error::InvalidArgument);
                },
            };
            board.clear_piece(captured_square);
            zhash.flip_piece_position(opponent, captured_piece, captured_square);
        }
        let new_piece = if rank_to == 7 || rank_to == 0 {
            match mov.promotion() {
                None => {
                    return Err(Error::InvalidArgument);
                },
                Some(Piece::Pawn) => {
                    return Err(Error::InvalidArgument);
                },
                Some(Piece::King) => {
                    return Err(Error::InvalidArgument);
                },
                Some(p) => p,
            }
        } else {
            Piece::Pawn
        };
        board.clear_piece(from);
        board.set_piece(side, new_piece, to);
        zhash.flip_piece_position(side, Piece::Pawn, from);
        zhash.flip_piece_position(side, new_piece, to);
        Ok((0, is_capture))
    }

    /// The king dispatch case of move application.
    fn apply_king(
        board: &mut Board,
        state: &mut State,
        zhash: &mut ZobristHash,
        side: Side,
        opponent: Side,
        opponent_pieces: BitBoard,
        halfmove0: u32,
        old_state: &State,
        mov: &Mov,
    ) -> (r: Result<(u32, bool)>)
        requires
            opponent_pieces@ == side_bits(old(board)@, opponent),
        ensures
            (r matches Ok(pair) ==> spec_king_step(
                old(board)@,
                old(state)@,
                old(zhash)@,
                halfmove0,
                side,
                opponent,
                old_state@,
                mov@,
            ) == Ok::<(BoardModel, u16, u32, u32, bool), Error>(
                (final(board)@, final(state)@, final(zhash)@, pair.0, pair.1),
            )),
            (r matches Err(e) ==> spec_king_step(
                old(board)@,
                old(state)@,
                old(zhash)@,
                halfmove0,
                side,
                opponent,
                old_state@,
                mov@,
            ) == Err::<(BoardModel, u16, u32, u32, bool), Error>(e)),
    {
        let from = mov.from();
        let to = mov.to();
        if old_state.king_side_castling_right(side) {
            state.set_king_side_castling_right(side, false);
            zhash.flip_king_castling_right(side);
        }
        if old_state.queen_side_castling_right(side) {
            state.set_queen_side_castling_right(side, false);
            zhash.flip_queen_castling_right(side);
        }
        if BitBoard::square(to).intersect(opponent_pieces).not_empty() {
            let captured_piece = match board.piece_at(to) {
                Some((_, cp)) => cp,
                None => {
                    return Err(Error::InvalidArgument);
                },
            };
            board.clear_piece(to);
            zhash.flip_piece_position(opponent, captured_piece, to);
            board.clear_piece(from);
            board.set_piece(side, Piece::King, to);
            zhash.flip_piece_position(side, Piece::King, from);
            zhash.flip_piece_position(side, Piece::King, to);
            return Ok((0, true));
        }
        let king_home_index: u8 = match side {
            Side::White => 4,
            Side::Black => 60,
        };
        if from.to_index() == king_home_index {
            if to.to_index() == king_home_index + 2 {
                // Castling king side: relocate the rook.
                let rook_from = Square::from_index(king_home_index + 3);
                let rook_to = Square::from_index(king_home_index + 1);
                board.clear_piece(rook_from);
                board.set_piece(side, Piece::Rook, rook_to);
                zhash.flip_piece_position(side, Piece::Rook, rook_from);
                zhash.flip_piece_position(side, Piece::Rook, rook_to);
            } else if to.to_index() == king_home_index - 2 {
                // Castling queen side: relocate the rook.
                let rook_from = Square::from_index(king_home_index - 4);
                let rook_to = Square::from_index(king_home_index - 1);
                board.clear_piece(rook_from);
                board.set_piece(side, Piece::Rook, rook_to);
                zhash.flip_piece_position(side, Piece::Rook, rook_from);
                zhash.flip_piece_position(side, Piece::Rook, rook_to);
            }
        }
        board.clear_piece(from);
        board.set_piece(side, Piece::King, to);
        zhash.flip_piece_position(side, Piece::King, from);
        zhash.flip_piece_position(side, Piece::King, to);
        Ok((halfmove0, false))
    }

    /// The knight, bishop and queen dispatch case of move application.
    fn apply_simple(
        board: &mut Board,
        state: &mut State,
        zhash: &mut ZobristHash,
        side: Side,
        opponent: Side,
        opponent_pieces: BitBoard,
        halfmove0: u32,
        piece: Piece,
        mov: &Mov,
    ) -> (r: Result<(u32, bool)>)
        requires
            opponent_pieces@ == side_bits(old(board)@, opponent),
        ensures
            (r matches Ok(pair) ==> spec_simple_step(
                old(board)@,
                old(state)@,
                old(zhash)@,
                halfmove0,
                side,
                opponent,
                piece,
                mov@,
            ) == Ok::<(BoardModel, u16, u32, u32, bool), Error>(
                (final(board)@, final(state)@, final(zhash)@, pair.0, pair.1),
            )),
            (r matches Err(e) ==> spec_simple_step(
                old(board)@,
                old(state)@,
                old(zhash)@,
                halfmove0,
                side,
                opponent,
                piece,
                mov@,
            ) == Err::<(BoardModel, u16, u32, u32, bool), Error>(e)),
    {
        let from = mov.from();
        let to = mov.to();
        let mut halfmove = halfmove0;
        let mut is_capture = false;
        if BitBoard::square(to).intersect(opponent_pieces).not_empty() {
            is_capture = true;
            let captured_piece = match board.piece_at(to) {
                Some((_, cp)) => cp,
                None => {
                    return Err(Error::InvalidArgument);
                },
            };
            board.clear_piece(to);
            zhash.flip_piece_position(opponent, captured_piece, to);
            halfmove = 0;
        }
        board.clear_piece(from);
        board.set_piece(side, piece, to);
        zhash.flip_piece_position(side, piece, from);
        zhash.flip_piece_position(side, piece, to);
        Ok((halfmove, is_capture))
    }

    /// The rook dispatch case of move application.
    fn apply_rook(
        board: &mut Board,
        state: &mut State,
        zhash: &mut ZobristHash,
        side: Side,
        opponent: Side,
        opponent_pieces: BitBoard,
        halfmove0: u32,
        old_state: &State,
        mov: &Mov,
    ) -> (r: Result<(u32, bool)>)
        requires
            opponent_pieces@ == side_bits(old(board)@, opponent),
        ensures
            (r matches Ok(pair) ==> spec_rook_step(
                old(board)@,
                old(state)@,
                old(zhash)@,
                halfmove0,
                side,
                opponent,
                old_state@,
                mov@,
            ) == Ok::<(BoardModel, u16, u32, u32, bool), Error>(
                (final(board)@, final(state)@, final(zhash)@, pair.0, pair.1),
            )),
            (r matches Err(e) ==> spec_rook_step(
                old(board)@,
                old(state)@,
                old(zhash)@,
                halfmove0,
                side,
                opponent,
                old_state@,
                mov@,
            ) == Err::<(BoardModel, u16, u32, u32, bool), Error>(e)),
    {
        let from = mov.from();
        let to = mov.to();
        let mut halfmove = halfmove0;
        let mut is_capture = false;
        if BitBoard::square(to).intersect(opponent_pieces).not_empty() {
            is_capture = true;
            let captured_piece = match board.piece_at(to) {
                Some((_, cp)) => cp,
                None => {
                    return Err(Error::InvalidArgument);
                },
            };
            board.clear_piece(to);
            zhash.flip_piece_position(opponent, captured_piece, to);
            halfmove = 0;
        }
        let (king_side_origin, queen_side_origin): (u8, u8) = match side {
            Side::White => (7, 0),
            Side::Black => (63, 56),
        };
        if from.to_index() == king_side_origin && old_state.king_side_castling_right(side) {
            state.set_king_side_castling_right(side, false);
            zhash.flip_king_castling_right(side);
        } else if from.to_index() == queen_side_origin && old_state.queen_side_castling_right(
            side,
        ) {
            state.set_queen_side_castling_right(side, false);
            zhash.flip_queen_castling_right(side);
        }
        board.clear_piece(from);
        board.set_piece(side, Piece::Rook, to);
        zhash.flip_piece_position(side, Piece::Rook, from);
        zhash.flip_piece_position(side, Piece::Rook, to);
        Ok((halfmove, is_capture))
    }

    /// Applies a move: the next game, or the rejection.  The caller's
    /// game is untouched either way.
    pub fn make_move(&self, mov: &Mov) -> (r: Result<Game>)
        ensures
            (r matches Ok(g2) ==> spec_make_move(self@, mov@) == Ok::<GameModel, Error>(g2@)),
            (r matches Err(e) ==> spec_make_move(self@, mov@) == Err::<GameModel, Error>(e)),
            (r matches Ok(g2) ==> !spec_is_king_attacked(g2@.board, spec_turn(self@.state))),
    {
        let us = self.next_turn_side();
        match self.board.piece_at(mov.from()) {
            None => {
                return Err(Error::InvalidArgument);
            },
            Some((side, _)) => {
                if side.to_index() != us.to_index() {
                    return Err(Error::InvalidArgument);
                }
            },
        }
        if self.pseudo_legal_moves_from(mov.from()).intersect(
            BitBoard::square(mov.to()),
        ).is_empty() {
            proof {
                crate::bitboard::lemma_bit_mask_test(
                    spec_game_pseudo_targets(self@, mov@.from as u64),
                    mov@.to as u64,
                );
            }
            return Err(Error::IllegalMove);
        }
        proof {
            crate::bitboard::lemma_bit_mask_test(
                spec_game_pseudo_targets(self@, mov@.from as u64),
                mov@.to as u64,
            );
        }
        let (board, state, zobrist, halfmove_clock, fullmove_number) =
            match self.make_pseudo_legal_move(mov) {
            Ok(t) => t,
            Err(e) => {
                return Err(e);
            },
        };
        if !board.has_both_kings() {
            return Err(Error::IllegalMove);
        }
        if board.is_king_attacked(us) {
            return Err(Error::IllegalMove);
        }
        Ok(Game { board, state, zobrist, halfmove_clock, fullmove_number })
    }

    /// Offers one move to the legality filter: applies it tentatively
    /// and keeps it when both kings survive and the mover's king is
    /// not left attacked.
    fn try_mov(&self, mov: Mov) -> (r: Option<Mov>)
        requires
            bit_at(spec_game_pseudo_targets(self@, mov@.from as u64), mov@.to as u64),
        ensures
            r matches Some(m2) ==> m2 == mov,
            r is Some <==> spec_is_legal(self@, mov@),
    {
        proof {
            reveal(spec_is_legal);
        }
        match self.make_pseudo_legal_move(&mov) {
            Ok((board, _, _, _, _)) => {
                if !board.has_both_kings() {
                    return None;
                }
                if board.is_king_attacked(self.next_turn_side()) {
                    return None;
                }
                Some(mov)
            },
            Err(_) => None,
        }
    }

    /// Every legal move of the piece standing at `from`.
    ///
    /// Each returned move is legal, and every legal move from this
    /// square appears, with a promotion piece named exactly when the
    /// move promotes.
    pub fn legal_moves_from(&self, from: Square) -> (r: Vec<Mov>)
        ensures
            forall|k: int|
                0 <= k < r@.len() ==> spec_is_legal(self@, #[trigger] r@[k]@) && r@[k]@.from
                    == from@,
            forall|m: MovModel|
                m.from == from@ && #[trigger] spec_is_legal(self@, m) && promo_shape(self@, m)
                    ==> contains_mov(r@, m),
            forall|k1: int, k2: int| 0 <= k1 < k2 < r@.len() ==> (#[trigger] r@[k1]@) != (#[trigger] r@[k2]@),
    {
        let mut legal: Vec<Mov> = Vec::new();
        let targets = self.pseudo_legal_moves_from(from);
        let mut rem = targets;
        proof {
            assert forall|m: MovModel|
                m.from == from@ && #[trigger] spec_is_legal(self@, m) implies bit_at(
                targets@,
                m.to as u64,
            ) by {
                reveal(spec_is_legal);
            }
        }
        while rem.not_empty()
            invariant
                targets@ == spec_game_pseudo_targets(self@, from@ as u64),
                forall|m: MovModel|
                    m.from == from@ && #[trigger] spec_is_legal(self@, m) ==> bit_at(
                        targets@,
                        m.to as u64,
                    ),
                forall|j: u64| #[trigger] bit_at(rem@, j) ==> bit_at(targets@, j),
                forall|k: int|
                    0 <= k < legal@.len() ==> spec_is_legal(self@, #[trigger] legal@[k]@)
                        && legal@[k]@.from == from@,
                forall|m: MovModel|
                    m.from == from@ && #[trigger] spec_is_legal(self@, m) && promo_shape(self@, m)
                        && !bit_at(rem@, m.to as u64) ==> contains_mov(legal@, m),
                forall|k: int|
                    0 <= k < legal@.len() ==> !bit_at(rem@, (#[trigger] legal@[k]@).to as u64),
                forall|k1: int, k2: int|
                    0 <= k1 < k2 < legal@.len() ==> (#[trigger] legal@[k1]@) != (#[trigger] legal@[k2]@),
            decreases rem@,
        {
            let ghost rem_old = rem@;
            let ghost legal_old = legal@;
            let to = rem.pop_square();
            proof {
                assert forall|j: u64| #[trigger] bit_at(rem@, j) implies bit_at(
                    rem_old,
                    j,
                ) && j != to@ as u64 by {
                    crate::bitboard::lemma_bit_xor(rem_old, sq_bb(to@ as u64), j);
                    if j < 64 {
                        crate::bitboard::lemma_bit_single(to@ as u64, j);
                    } else {
                        crate::bitboard::lemma_bit_oob(rem@, j);
                    }
                }
                assert forall|j: u64|
                    bit_at(rem_old, j) && j != to@ as u64 implies #[trigger] bit_at(
                    rem@,
                    j,
                ) by {
                    crate::bitboard::lemma_bit_xor(rem_old, sq_bb(to@ as u64), j);
                    if j < 64 {
                        crate::bitboard::lemma_bit_single(to@ as u64, j);
                    } else {
                        crate::bitboard::lemma_bit_oob(rem_old, j);
                    }
                }
            }
            self.offer_square(&mut legal, from, to);
            proof {
                assert forall|m: MovModel|
                    m.from == from@ && #[trigger] spec_is_legal(self@, m) && promo_shape(self@, m)
                        && !bit_at(rem@, m.to as u64) implies contains_mov(legal@, m) by {
                    if m.to as u64 != to@ as u64 {
                        if contains_mov(legal_old, m) {
                            let k = choose|k: int|
                                0 <= k < legal_old.len() && legal_old[k]@ == m;
                            assert(legal@[k]@ == m);
                        }
                    }
                }
                assert forall|k: int|
                    0 <= k < legal@.len() implies !bit_at(
                    rem@,
                    (#[trigger] legal@[k]@).to as u64,
                ) by {
                    if k < legal_old.len() {
                        assert(legal@[k]@ == legal_old[k]@);
                    }
                }
                assert forall|k1: int, k2: int|
                    0 <= k1 < k2 < legal@.len() implies (#[trigger] legal@[k1]@) != (
                    #[trigger] legal@[k2]@) by {
                    if k1 < legal_old.len() && k2 >= legal_old.len() {
                        // The older move aims at an earlier square, the
                        // newer one at the square just popped.
                        assert(legal@[k1]@ == legal_old[k1]@);
                        assert(legal_old[k1]@.to != to@);
                    }
                }
            }
        }
        proof {
            assert forall|m: MovModel|
                m.from == from@ && #[trigger] spec_is_legal(self@, m) && promo_shape(self@, m)
                    implies contains_mov(legal@, m) by {
                crate::bitboard::lemma_bit_empty(m.to as u64);
            }
        }
        legal
    }

    /// Offers every move form aimed at one destination square: the
    /// four promotion pieces when the move promotes, the bare move
    /// otherwise.
    fn offer_square(&self, legal: &mut Vec<Mov>, from: Square, to: Square)
        requires
            bit_at(spec_game_pseudo_targets(self@, from@ as u64), to@ as u64),
        ensures
            final(legal)@.len() >= old(legal)@.len(),
            forall|k: int| 0 <= k < old(legal)@.len() ==> final(legal)@[k] == old(legal)@[k],
            forall|k: int|
                old(legal)@.len() <= k < final(legal)@.len() ==> spec_is_legal(
                    self@,
                    #[trigger] final(legal)@[k]@,
                ) && final(legal)@[k]@.from == from@ && final(legal)@[k]@.to == to@,
            forall|m: MovModel|
                m.from == from@ && m.to == to@ && #[trigger] spec_is_legal(self@, m)
                    && promo_shape(self@, m) ==> contains_mov(final(legal)@, m),
            forall|k1: int, k2: int|
                old(legal)@.len() <= k1 < k2 < final(legal)@.len() ==> (#[trigger] final(legal)@[k1]@) != (#[trigger] final(legal)@[k2]@),
    {
        let ghost legal_entry = legal@;
        let pawn_here = self.board.is_pawn(from);
        let rank_to = to.to_index() / 8;
        let is_promo = pawn_here && (rank_to == 7 || rank_to == 0);
        let mut cands: Vec<Mov> = Vec::new();
        if is_promo {
            cands.push(Mov::new(from, to, Some(Piece::Knight)));
            cands.push(Mov::new(from, to, Some(Piece::Queen)));
            cands.push(Mov::new(from, to, Some(Piece::Rook)));
            cands.push(Mov::new(from, to, Some(Piece::Bishop)));
        } else {
            cands.push(Mov::new(from, to, None));
        }
        let ghost cands_full = cands@;
        proof {
            assert forall|j1: int, j2: int|
                0 <= j1 < j2 < cands_full.len() implies (#[trigger] cands_full[j1]@) != (
                #[trigger] cands_full[j2]@) by {
                assert(cands_full[j1]@.promotion != cands_full[j2]@.promotion);
            }
        }
        let mut i: usize = 0;
        while i < cands.len()
            invariant
                cands@ == cands_full,
                i <= cands_full.len(),
                bit_at(spec_game_pseudo_targets(self@, from@ as u64), to@ as u64),
                forall|j: int|
                    0 <= j < cands_full.len() ==> (#[trigger] cands_full[j]@).from == from@
                        && cands_full[j]@.to == to@,
                forall|j1: int, j2: int|
                    0 <= j1 < j2 < cands_full.len() ==> (#[trigger] cands_full[j1]@) != (
                    #[trigger] cands_full[j2]@),
                legal@.len() >= legal_entry.len(),
                forall|k: int| 0 <= k < legal_entry.len() ==> legal@[k] == legal_entry[k],
                forall|k: int|
                    legal_entry.len() <= k < legal@.len() ==> spec_is_legal(
                        self@,
                        #[trigger] legal@[k]@,
                    ) && legal@[k]@.from == from@ && legal@[k]@.to == to@,
                forall|j: int|
                    0 <= j < i && spec_is_legal(self@, #[trigger] cands_full[j]@)
                        ==> contains_mov(legal@, cands_full[j]@),
                forall|k: int|
                    legal_entry.len() <= k < legal@.len() ==> exists|j: int|
                        0 <= j < i && (#[trigger] legal@[k]@) == cands_full[j]@,
                forall|k1: int, k2: int|
                    legal_entry.len() <= k1 < k2 < legal@.len() ==> (#[trigger] legal@[k1]@) != (
                    #[trigger] legal@[k2]@),
            decreases cands_full.len() - i,
        {
            let ghost legal_prev = legal@;
            let cand = cands[i];
            match self.try_mov(cand) {
                Some(m) => {
                    legal.push(m);
                },
                None => (),
            }
            proof {
                assert forall|j: int|
                    0 <= j < i + 1 && spec_is_legal(
                        self@,
                        #[trigger] cands_full[j]@,
                    ) implies contains_mov(legal@, cands_full[j]@) by {
                    if j < i {
                        let k = choose|k: int|
                            0 <= k < legal_prev.len() && legal_prev[k]@ == cands_full[j]@;
                        assert(legal@[k]@ == cands_full[j]@);
                    } else {
                        assert(legal@[legal_prev.len() as int]@ == cands_full[j]@);
                    }
                }
                assert forall|k: int|
                    legal_entry.len() <= k < legal@.len() implies exists|j: int|
                        0 <= j < i + 1 && (#[trigger] legal@[k]@) == cands_full[j]@ by {
                    if k < legal_prev.len() {
                        assert(legal@[k]@ == legal_prev[k]@);
                        let j = choose|j: int| 0 <= j < i && legal_prev[k]@ == cands_full[j]@;
                        assert(legal@[k]@ == cands_full[j]@);
                    } else {
                        assert(legal@[k]@ == cands_full[i as int]@);
                    }
                }
                assert forall|k1: int, k2: int|
                    legal_entry.len() <= k1 < k2 < legal@.len() implies (#[trigger] legal@[k1]@)
                        != (#[trigger] legal@[k2]@) by {
                    if k2 >= legal_prev.len() {
                        // The older entry repeats an earlier candidate,
                        // the newest entry the current one.
                        assert(legal@[k1]@ == legal_prev[k1]@);
                        let j = choose|j: int| 0 <= j < i && legal_prev[k1]@ == cands_full[j]@;
                        assert(legal@[k2]@ == cands_full[i as int]@);
                        assert(cands_full[j]@ != cands_full[i as int]@);
                    } else {
                        assert(legal@[k1]@ == legal_prev[k1]@);
                        assert(legal@[k2]@ == legal_prev[k2]@);
                    }
                }
            }
            i = i + 1;
        }
        proof {
            assert forall|m: MovModel|
                m.from == from@ && m.to == to@ && #[trigger] spec_is_legal(self@, m)
                    && promo_shape(self@, m) implies contains_mov(legal@, m) by {
                if is_promo_situation(self@, m) {
                    lemma_promo_pieces(self@, m);
                    if m.promotion == Some(Piece::Knight) {
                        assert(cands_full[0]@ == m);
                    } else if m.promotion == Some(Piece::Queen) {
                        assert(cands_full[1]@ == m);
                    } else if m.promotion == Some(Piece::Rook) {
                        assert(cands_full[2]@ == m);
                    } else {
                        assert(cands_full[3]@ == m);
                    }
                } else {
                    assert(cands_full[0]@ == m);
                }
            }
        }
    }

    /// Every legal move of the side to move, each exactly once.
    pub fn legal_moves(&self) -> (r: Vec<Mov>)
        ensures
            forall|k: int| 0 <= k < r@.len() ==> spec_is_legal(self@, #[trigger] r@[k]@),
            forall|m: MovModel|
                #[trigger] spec_is_legal(self@, m) && promo_shape(self@, m) ==> contains_mov(r@, m),
            forall|k1: int, k2: int| 0 <= k1 < k2 < r@.len() ==> (#[trigger] r@[k1]@) != (#[trigger] r@[k2]@),
    {
        let mut legal: Vec<Mov> = Vec::new();
        let mut rem = self.board.pieces_by_side(self.next_turn_side());
        proof {
            assert forall|m: MovModel| #[trigger] spec_is_legal(self@, m) implies bit_at(
                side_bits(self@.board, spec_turn(self@.state)),
                m.from as u64,
            ) by {
                lemma_legal_from_own(self@, m);
            }
        }
        while rem.not_empty()
            invariant
                forall|k: int| 0 <= k < legal@.len() ==> spec_is_legal(self@, #[trigger] legal@[k]@),
                forall|m: MovModel|
                    #[trigger] spec_is_legal(self@, m) && promo_shape(self@, m) && !bit_at(
                        rem@,
                        m.from as u64,
                    ) ==> contains_mov(legal@, m),
                forall|k: int|
                    0 <= k < legal@.len() ==> !bit_at(rem@, (#[trigger] legal@[k]@).from as u64),
                forall|k1: int, k2: int|
                    0 <= k1 < k2 < legal@.len() ==> (#[trigger] legal@[k1]@) != (#[trigger] legal@[k2]@),
            decreases rem@,
        {
            let ghost rem_old = rem@;
            let ghost legal_base = legal@;
            let from = rem.pop_square();
            proof {
                assert forall|j: u64| #[trigger] bit_at(rem@, j) implies bit_at(
                    rem_old,
                    j,
                ) && j != from@ as u64 by {
                    crate::bitboard::lemma_bit_xor(rem_old, sq_bb(from@ as u64), j);
                    if j < 64 {
                        crate::bitboard::lemma_bit_single(from@ as u64, j);
                    } else {
                        crate::bitboard::lemma_bit_oob(rem@, j);
                    }
                }
                assert forall|j: u64|
                    bit_at(rem_old, j) && j != from@ as u64 implies #[trigger] bit_at(
                    rem@,
                    j,
                ) by {
                    crate::bitboard::lemma_bit_xor(rem_old, sq_bb(from@ as u64), j);
                    if j < 64 {
                        crate::bitboard::lemma_bit_single(from@ as u64, j);
                    } else {
                        crate::bitboard::lemma_bit_oob(rem_old, j);
                    }
                }
            }
            let mut movs = self.legal_moves_from(from);
            let ghost movs_full = movs@;
            proof {
                assert(movs@ =~= movs_full.take(movs@.len() as int));
            }
            while movs.len() > 0
                invariant
                    movs@.len() <= movs_full.len(),
                    movs@ == movs_full.take(movs@.len() as int),
                    forall|k: int|
                        0 <= k < movs_full.len() ==> spec_is_legal(self@, #[trigger] movs_full[k]@)
                            && movs_full[k]@.from == from@,
                    forall|k1: int, k2: int|
                        0 <= k1 < k2 < movs_full.len() ==> (#[trigger] movs_full[k1]@) != (
                        #[trigger] movs_full[k2]@),
                    forall|k: int| 0 <= k < legal_base.len() ==> legal@[k] == legal_base[k],
                    forall|k: int|
                        0 <= k < legal_base.len() ==> (#[trigger] legal_base[k]@).from != from@,
                    legal@.len() >= legal_base.len(),
                    forall|k: int|
                        0 <= k < legal@.len() ==> spec_is_legal(self@, #[trigger] legal@[k]@),
                    forall|k: int|
                        legal_base.len() <= k < legal@.len() ==> exists|j: int|
                            movs@.len() <= j < movs_full.len() && (#[trigger] legal@[k]@)
                                == movs_full[j]@,
                    forall|m: MovModel|
                        contains_mov(movs_full, m) ==> contains_mov(movs@, m) || contains_mov(
                            legal@,
                            m,
                        ),
                    forall|m: MovModel|
                        #[trigger] spec_is_legal(self@, m) && promo_shape(self@, m) && !bit_at(
                            rem_old,
                            m.from as u64,
                        ) ==> contains_mov(legal@, m),
                    forall|k1: int, k2: int|
                        0 <= k1 < k2 < legal@.len() ==> (#[trigger] legal@[k1]@) != (
                        #[trigger] legal@[k2]@),
                decreases movs@.len(),
            {
                let ghost movs_prev = movs@;
                let ghost legal_prev = legal@;
                match movs.pop() {
                    Some(m) => {
                        legal.push(m);
                    },
                    None => (),
                }
                proof {
                    assert(movs@ =~= movs_full.take(movs@.len() as int));
                    assert(legal@[legal_prev.len() as int]@ == movs_full[movs_prev.len()
                        - 1]@);
                    assert forall|m0: MovModel|
                        contains_mov(movs_full, m0) implies contains_mov(movs@, m0)
                            || contains_mov(legal@, m0) by {
                        if contains_mov(movs_prev, m0) {
                            let k = choose|k: int|
                                0 <= k < movs_prev.len() && movs_prev[k]@ == m0;
                            if k < movs_prev.len() - 1 {
                                assert(movs@[k]@ == m0);
                            } else {
                                assert(legal@[legal_prev.len() as int]@ == m0);
                            }
                        } else if contains_mov(legal_prev, m0) {
                            let k = choose|k: int|
                                0 <= k < legal_prev.len() && legal_prev[k]@ == m0;
                            assert(legal@[k]@ == m0);
                        }
                    }
                    assert forall|m0: MovModel|
                        #[trigger] spec_is_legal(self@, m0) && promo_shape(self@, m0) && !bit_at(
                            rem_old,
                            m0.from as u64,
                        ) implies contains_mov(legal@, m0) by {
                        if contains_mov(legal_prev, m0) {
                            let k = choose|k: int|
                                0 <= k < legal_prev.len() && legal_prev[k]@ == m0;
                            assert(legal@[k]@ == m0);
                        }
                    }
                    assert forall|k: int|
                        legal_base.len() <= k < legal@.len() implies exists|j: int|
                            movs@.len() <= j < movs_full.len() && (#[trigger] legal@[k]@)
                                == movs_full[j]@ by {
                        if k < legal_prev.len() {
                            assert(legal@[k]@ == legal_prev[k]@);
                            let j = choose|j: int|
                                movs_prev.len() <= j < movs_full.len() && legal_prev[k]@
                                    == movs_full[j]@;
                            assert(legal@[k]@ == movs_full[j]@);
                        } else {
                            assert(legal@[k]@ == movs_full[movs_prev.len() - 1]@);
                        }
                    }
                    assert forall|k1: int, k2: int|
                        0 <= k1 < k2 < legal@.len() implies (#[trigger] legal@[k1]@) != (
                        #[trigger] legal@[k2]@) by {
                        if k2 == legal_prev.len() as int {
                            assert(legal@[k2]@ == movs_full[movs_prev.len() - 1]@);
                            assert(legal@[k1]@ == legal_prev[k1]@);
                            if k1 < legal_base.len() {
                                // The older entry starts on another square.
                                assert(legal_base[k1]@.from != from@);
                                assert(movs_full[movs_prev.len() - 1]@.from == from@);
                            } else {
                                // The older entry repeats a later list slot.
                                let j = choose|j: int|
                                    movs_prev.len() <= j < movs_full.len() && legal_prev[k1]@
                                        == movs_full[j]@;
                                assert(movs_full[j]@ != movs_full[movs_prev.len() - 1]@);
                            }
                        } else {
                            assert(legal@[k1]@ == legal_prev[k1]@);
                            assert(legal@[k2]@ == legal_prev[k2]@);
                        }
                    }
                }
            }
            proof {
                assert forall|m: MovModel|
                    #[trigger] spec_is_legal(self@, m) && promo_shape(self@, m) && !bit_at(
                        rem@,
                        m.from as u64,
                    ) implies contains_mov(legal@, m) by {
                    if m.from == from@ {
                        assert(contains_mov(movs_full, m));
                    }
                }
                assert forall|k: int|
                    0 <= k < legal@.len() implies !bit_at(
                    rem@,
                    (#[trigger] legal@[k]@).from as u64,
                ) by {
                    if k < legal_base.len() {
                        assert(legal@[k] == legal_base[k]);
                    } else {
                        let j = choose|j: int|
                            0 <= j < movs_full.len() && legal@[k]@ == movs_full[j]@;
                        assert(legal@[k]@.from == from@);
                    }
                }
            }
        }
        proof {
            assert forall|m: MovModel|
                #[trigger] spec_is_legal(self@, m) && promo_shape(self@, m) implies contains_mov(
                legal@,
                m,
            ) by {
                crate::bitboard::lemma_bit_empty(m.from as u64);
            }
        }
        legal
    }

    /// True when the side to move has any legal move at all.  False in
    /// exactly the checkmate and stalemate positions.
    pub fn has_legal_moves(&self) -> (r: bool)
        ensures
            r == exists|m: MovModel| spec_is_legal(self@, m),
    {
        let mut rem = self.board.pieces_by_side(self.next_turn_side());
        proof {
            assert forall|m: MovModel| #[trigger] spec_is_legal(self@, m) implies bit_at(
                side_bits(self@.board, spec_turn(self@.state)),
                m.from as u64,
            ) by {
                lemma_legal_from_own(self@, m);
            }
        }
        while rem.not_empty()
            invariant
                forall|m: MovModel|
                    #[trigger] spec_is_legal(self@, m) && promo_shape(self@, m) ==> bit_at(
                        rem@,
                        m.from as u64,
                    ),
            decreases rem@,
        {
            let ghost rem_old = rem@;
            let from = rem.pop_square();
            proof {
                assert forall|j: u64|
                    bit_at(rem_old, j) && j != from@ as u64 implies #[trigger] bit_at(
                    rem@,
                    j,
                ) by {
                    crate::bitboard::lemma_bit_xor(rem_old, sq_bb(from@ as u64), j);
                    if j < 64 {
                        crate::bitboard::lemma_bit_single(from@ as u64, j);
                    } else {
                        crate::bitboard::lemma_bit_oob(rem_old, j);
                    }
                }
            }
            let movs = self.legal_moves_from(from);
            if movs.len() > 0 {
                proof {
                    assert(spec_is_legal(self@, movs@[0]@));
                }
                return true;
            }
            proof {
                assert forall|m: MovModel|
                    #[trigger] spec_is_legal(self@, m) && promo_shape(self@, m) implies bit_at(
                    rem@,
                    m.from as u64,
                ) by {
                    if m.from == from@ {
                        assert(contains_mov(movs@, m));
                    }
                }
            }
        }
        proof {
            if exists|m: MovModel| spec_is_legal(self@, m) {
                let m = choose|m: MovModel| spec_is_legal(self@, m);
                lemma_normalize_legal(self@, m);
                crate::bitboard::lemma_bit_empty(normalize_mov(self@, m).from as u64);
            }
        }
        false
    }
}

/// A side's material score only grows with the square range.
proof fn lemma_score_monotone(m: BoardModel, side: Side, lo: int, hi: int)
    requires
        0 <= lo <= hi,
    ensures
        score_upto(m, side, lo) <= score_upto(m, side, hi),
    decreases hi - lo,
{
    if lo < hi {
        lemma_score_monotone(m, side, lo, hi - 1);
        lemma_weight_nonnegative(m, side, hi);
    }
}

/// Each square contributes a nonnegative weight.
proof fn lemma_weight_nonnegative(m: BoardModel, side: Side, n: int)
    ensures
        score_upto(m, side, n) >= score_upto(m, side, n - 1),
{
}

} // verus!
