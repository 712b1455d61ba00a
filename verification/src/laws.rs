//! The engine's guarantees, stated and proved once over the move
//! transition: king safety, the turn flip, the half-move clock rule,
//! the castling preconditions, and the hash's dependence on the
//! position alone.

use vstd::prelude::*;
use crate::bitboard::{bit_at, east1, file_bb, king_bb, north1, north_east1, north_west1, sq_bb, south1, south_east1, south_west1, west1};
use crate::board::{
    occ_bb, side_bits, spec_clear_piece, spec_is_attacked, spec_is_king_attacked, spec_piece_at,
    spec_set_piece, BoardModel,
};
use crate::common::Error;
use crate::game::{
    king_home, ks_rook_home, qs_rook_home, sat_inc, spec_game_pseudo_targets, spec_is_legal,
    spec_make_move, spec_make_pseudo, GameModel,
};
use crate::mov::MovModel;
use crate::piece::Piece;
use crate::side::Side;
use crate::state::{king_side_bit, queen_side_bit, spec_turn, st_bit, st_with_bit};
use crate::zobrist::{
    board_hash, board_hash_upto, en_passant_key_index, flag_key, flag_key_index, key_at,
    king_castling_key_index, piece_key_index, position_hash, queen_castling_key_index, square_key,
    state_hash, state_hash_upto,
};

verus! {

broadcast use
    crate::state::lemma_st_with_bit,
    crate::state::lemma_st_mask_high,
    crate::bitboard::lemma_bit_or_auto,
    crate::bitboard::lemma_bit_and_auto,
    crate::bitboard::lemma_bit_not_auto,
    crate::bitboard::lemma_bit_sq_auto,
;

/// King safety: a move accepted by the transition never leaves the
/// mover's own king attacked, so in every position reached through
/// move application the side that is not to move stands free of
/// check; and the turn passes to the opponent.
pub proof fn lemma_king_safety(g: GameModel, m: MovModel, g2: GameModel)
    requires
        spec_make_move(g, m) == Ok::<GameModel, Error>(g2),
    ensures
        !spec_is_king_attacked(g2.board, spec_turn(g.state)),
        spec_turn(g2.state) == spec_turn(g.state).spec_flip(),
{
    lemma_make_pseudo_turn(g, m, g2);
}

/// The turn recorded after a pseudo-legal transition is the mover's
/// opponent: no later flag edit touches the turn bit.
#[verifier::rlimit(100)]
proof fn lemma_make_pseudo_turn(g: GameModel, m: MovModel, g2: GameModel)
    requires
        spec_make_pseudo(g, m) == Ok::<GameModel, Error>(g2),
    ensures
        spec_turn(g2.state) == spec_turn(g.state).spec_flip(),
{
    reveal(spec_make_pseudo);
}

/// The half-move clock rule: a pawn move or a capture resets the
/// clock to zero, and any other accepted move bumps it by one.  One
/// hundred reversible half-moves in a row therefore drive the clock
/// to one hundred.
#[verifier::rlimit(100)]
pub proof fn lemma_halfmove_clock(g: GameModel, m: MovModel, g2: GameModel)
    requires
        spec_make_move(g, m) == Ok::<GameModel, Error>(g2),
    ensures
        (spec_piece_at(g.board, m.from as u64) matches Some(sp) && sp.1 == Piece::Pawn)
            ==> g2.halfmove_clock == 0,
        (spec_piece_at(g.board, m.from as u64) matches Some(sp) && sp.1 != Piece::Pawn
            && spec_piece_at(g.board, m.to as u64) is None) ==> g2.halfmove_clock == sat_inc(
            g.halfmove_clock,
        ),
        (spec_piece_at(g.board, m.from as u64) matches Some(sp) && sp.1 != Piece::Pawn && bit_at(
            side_bits(g.board, spec_turn(g.state).spec_flip()),
            m.to as u64,
        )) ==> g2.halfmove_clock == 0,
{
    reveal(spec_make_pseudo);
    reveal(spec_game_pseudo_targets);
    crate::bitboard::lemma_bit_oob(spec_game_pseudo_targets(g, m.from as u64), m.to as u64);
    crate::bitboard::lemma_bit_mask_test(
        side_bits(g.board, spec_turn(g.state).spec_flip()),
        m.to as u64,
    );
    crate::bitboard::lemma_bit_mask_test(g.board.white, m.to as u64);
    crate::bitboard::lemma_bit_mask_test(g.board.black, m.to as u64);
}

/// The constant bit facts of the castling targets: the king's own
/// neighbor mask and the far wing's file mask never supply the
/// castling destination bit.
proof fn lemma_castle_const_bits()
    by (bit_vector)
    ensures
        !bit_at(king_bb(4u64), 6u64),
        !bit_at(king_bb(60u64), 62u64),
        !bit_at(king_bb(4u64), 2u64),
        !bit_at(king_bb(60u64), 58u64),
        !bit_at(0x0404_0404_0404_0404u64, 6u64),
        !bit_at(0x0404_0404_0404_0404u64, 62u64),
        !bit_at(0x4040_4040_4040_4040u64, 2u64),
        !bit_at(0x4040_4040_4040_4040u64, 58u64),
{
}

/// The castling chain: when the destination bit survives the two
/// guarded one-step shifts, both stepped-over squares were empty.
proof fn lemma_castle_chains(occ: u64)
    by (bit_vector)
    ensures
        bit_at((east1(east1(sq_bb(4u64)) & !occ) & !occ) & 0x4040_4040_4040_4040u64, 6u64)
            ==> !bit_at(occ, 5u64) && !bit_at(occ, 6u64),
        bit_at((east1(east1(sq_bb(60u64)) & !occ) & !occ) & 0x4040_4040_4040_4040u64, 62u64)
            ==> !bit_at(occ, 61u64) && !bit_at(occ, 62u64),
        bit_at((west1(west1(sq_bb(4u64)) & !occ) & !occ) & 0x0404_0404_0404_0404u64, 2u64)
            ==> !bit_at(occ, 3u64) && !bit_at(occ, 2u64),
        bit_at((west1(west1(sq_bb(60u64)) & !occ) & !occ) & 0x0404_0404_0404_0404u64, 58u64)
            ==> !bit_at(occ, 59u64) && !bit_at(occ, 58u64),
{
}

/// The castling preconditions, king side: when a legal move carries
/// the king from its home square two files toward the rook, the
/// king-side right is still held, both passage squares are empty, and
/// neither the king's square nor the passage squares stand attacked.
#[verifier::rlimit(100)]
pub proof fn lemma_castle_king_side(g: GameModel, m: MovModel)
    requires
        spec_is_legal(g, m),
        spec_piece_at(g.board, m.from as u64) == Some((spec_turn(g.state), Piece::King)),
        m.from as u64 == king_home(spec_turn(g.state)),
        m.to as u64 == (king_home(spec_turn(g.state)) + 2) as u64,
    ensures
        st_bit(g.state, king_side_bit(spec_turn(g.state))),
        !bit_at(occ_bb(g.board), (king_home(spec_turn(g.state)) + 1) as u64),
        !bit_at(occ_bb(g.board), (king_home(spec_turn(g.state)) + 2) as u64),
        !spec_is_attacked(g.board, king_home(spec_turn(g.state)), spec_turn(g.state).spec_flip()),
        !spec_is_attacked(
            g.board,
            (king_home(spec_turn(g.state)) + 1) as u64,
            spec_turn(g.state).spec_flip(),
        ),
        !spec_is_attacked(
            g.board,
            (king_home(spec_turn(g.state)) + 2) as u64,
            spec_turn(g.state).spec_flip(),
        ),
{
    reveal(spec_is_legal);
    reveal(spec_game_pseudo_targets);
    lemma_castle_const_bits();
    lemma_castle_chains(occ_bb(g.board));
    crate::bitboard::lemma_bit_empty((m.to as u64));
}

/// The castling preconditions, queen side: when a legal move carries
/// the king from its home square two files toward the rook, the
/// queen-side right is still held, all three squares between king and
/// rook are empty, and neither the king's square nor the two squares
/// it crosses stand attacked.
#[verifier::rlimit(100)]
pub proof fn lemma_castle_queen_side(g: GameModel, m: MovModel)
    requires
        spec_is_legal(g, m),
        spec_piece_at(g.board, m.from as u64) == Some((spec_turn(g.state), Piece::King)),
        m.from as u64 == king_home(spec_turn(g.state)),
        m.to as u64 == (king_home(spec_turn(g.state)) - 2) as u64,
    ensures
        st_bit(g.state, queen_side_bit(spec_turn(g.state))),
        !bit_at(occ_bb(g.board), (king_home(spec_turn(g.state)) - 1) as u64),
        !bit_at(occ_bb(g.board), (king_home(spec_turn(g.state)) - 2) as u64),
        !bit_at(occ_bb(g.board), (king_home(spec_turn(g.state)) - 3) as u64),
        !spec_is_attacked(g.board, king_home(spec_turn(g.state)), spec_turn(g.state).spec_flip()),
        !spec_is_attacked(
            g.board,
            (king_home(spec_turn(g.state)) - 1) as u64,
            spec_turn(g.state).spec_flip(),
        ),
        !spec_is_attacked(
            g.board,
            (king_home(spec_turn(g.state)) - 2) as u64,
            spec_turn(g.state).spec_flip(),
        ),
{
    reveal(spec_is_legal);
    reveal(spec_game_pseudo_targets);
    lemma_castle_const_bits();
    lemma_castle_chains(occ_bb(g.board));
    crate::bitboard::lemma_bit_empty((m.to as u64));
}

/// Castling rights only ever fall: no transition step turns a right
/// on, so a right held after a move was already held before it.
#[verifier::rlimit(100)]
pub proof fn lemma_rights_monotone(g: GameModel, m: MovModel, g2: GameModel)
    requires
        spec_make_move(g, m) == Ok::<GameModel, Error>(g2),
    ensures
        st_bit(g2.state, king_side_bit(Side::White)) ==> st_bit(g.state, king_side_bit(Side::White)),
        st_bit(g2.state, queen_side_bit(Side::White)) ==> st_bit(
            g.state,
            queen_side_bit(Side::White),
        ),
        st_bit(g2.state, king_side_bit(Side::Black)) ==> st_bit(g.state, king_side_bit(Side::Black)),
        st_bit(g2.state, queen_side_bit(Side::Black)) ==> st_bit(
            g.state,
            queen_side_bit(Side::Black),
        ),
{
    reveal(spec_make_pseudo);
}

/// After a pseudo-legal transition, a low flag bit is open only for
/// the file of a pawn double push just played.
#[verifier::rlimit(100)]
proof fn lemma_make_pseudo_low_bits(g: GameModel, m: MovModel, g2: GameModel)
    requires
        spec_make_pseudo(g, m) == Ok::<GameModel, Error>(g2),
    ensures
        forall|fb: u16|
            fb < 8 && #[trigger] st_bit(g2.state, fb) ==> (spec_piece_at(g.board, m.from as u64)
                matches Some(sp) && sp.1 == Piece::Pawn && ((m.from / 8 == 1 && m.to / 8 == 3) || (
            m.from / 8 == 6 && m.to / 8 == 4)) && fb == m.to % 8),
{
    reveal(spec_make_pseudo);
}

/// A pawn double push leaves the pushed pawn on its destination
/// square.
#[verifier::rlimit(100)]
proof fn lemma_make_pseudo_double_board(g: GameModel, m: MovModel, g2: GameModel)
    requires
        spec_make_pseudo(g, m) == Ok::<GameModel, Error>(g2),
        (spec_piece_at(g.board, m.from as u64) matches Some(sp) && sp.1 == Piece::Pawn),
        (m.from / 8 == 1 && m.to / 8 == 3) || (m.from / 8 == 6 && m.to / 8 == 4),
        m.to < 64,
        square_empty(g.board, m.to as u64),
    ensures
        spec_piece_at(g2.board, m.to as u64) == Some((spec_turn(g.state), Piece::Pawn)),
{
    reveal(spec_make_pseudo);
}

/// The en-passant invariant survives a move: afterwards the only open
/// file, if any, is the one of a double push just played, and the
/// pushed pawn stands behind its target square.
#[verifier::rlimit(100)]
pub proof fn lemma_ep_consistent_preserved(g: GameModel, m: MovModel, g2: GameModel)
    requires
        spec_make_move(g, m) == Ok::<GameModel, Error>(g2),
        board_wf(g.board),
        ep_consistent(g),
    ensures
        ep_consistent(g2),
{
    lemma_make_pseudo_turn(g, m, g2);
    lemma_make_pseudo_low_bits(g, m, g2);
    let side = spec_turn(g.state);
    let from = m.from as u64;
    let to = m.to as u64;
    crate::bitboard::lemma_bit_oob(spec_game_pseudo_targets(g, from), to);
    crate::bitboard::lemma_bit_oob(side_bits(g.board, side), from);
    assert forall|f: u16|
        f < 8 && #[trigger] st_bit(g2.state, f) implies (if spec_turn(g2.state) == Side::White {
        spec_piece_at(g2.board, (32 + f) as u64) == Some((Side::Black, Piece::Pawn))
    } else {
        spec_piece_at(g2.board, (24 + f) as u64) == Some((Side::White, Piece::Pawn))
    }) by {
        lemma_geometry_pawn(g, m);
        lemma_make_pseudo_double_board(g, m, g2);
        if side == Side::White {
            assert((24 + f) as u64 == to);
        } else {
            assert((32 + f) as u64 == to);
        }
    }
}

/// A king move takes both of the mover's castling rights with it.
#[verifier::rlimit(100)]
proof fn lemma_make_pseudo_king_revokes(g: GameModel, m: MovModel, g2: GameModel)
    requires
        spec_make_pseudo(g, m) == Ok::<GameModel, Error>(g2),
        (spec_piece_at(g.board, m.from as u64) matches Some(sp) && sp.1 == Piece::King),
    ensures
        !st_bit(g2.state, king_side_bit(spec_turn(g.state))),
        !st_bit(g2.state, queen_side_bit(spec_turn(g.state))),
{
    reveal(spec_make_pseudo);
}

/// A rook moving off its home square takes that wing's right with it.
#[verifier::rlimit(100)]
proof fn lemma_make_pseudo_rook_revokes(g: GameModel, m: MovModel, g2: GameModel)
    requires
        spec_make_pseudo(g, m) == Ok::<GameModel, Error>(g2),
        (spec_piece_at(g.board, m.from as u64) matches Some(sp) && sp.1 == Piece::Rook),
    ensures
        m.from as u64 == ks_rook_home(spec_turn(g.state)) ==> !st_bit(
            g2.state,
            king_side_bit(spec_turn(g.state)),
        ),
        m.from as u64 == qs_rook_home(spec_turn(g.state)) ==> !st_bit(
            g2.state,
            queen_side_bit(spec_turn(g.state)),
        ),
{
    reveal(spec_make_pseudo);
}

/// A capture landing on the opponent's rook home square takes that
/// wing's right with it.
#[verifier::rlimit(100)]
proof fn lemma_make_pseudo_capture_revokes(g: GameModel, m: MovModel, g2: GameModel)
    requires
        spec_make_pseudo(g, m) == Ok::<GameModel, Error>(g2),
        bit_at(side_bits(g.board, spec_turn(g.state).spec_flip()), m.to as u64),
        (spec_piece_at(g.board, m.from as u64) matches Some(sp) && sp.1 == Piece::Pawn) ==> (
        m.from % 8 != m.to % 8 && !((m.from / 8 == 1 && m.to / 8 == 3) || (m.from / 8 == 6 && m.to
            / 8 == 4))),
        m.to < 64,
    ensures
        m.to as u64 == ks_rook_home(spec_turn(g.state).spec_flip()) ==> !st_bit(
            g2.state,
            king_side_bit(spec_turn(g.state).spec_flip()),
        ),
        m.to as u64 == qs_rook_home(spec_turn(g.state).spec_flip()) ==> !st_bit(
            g2.state,
            queen_side_bit(spec_turn(g.state).spec_flip()),
        ),
{
    reveal(spec_make_pseudo);
    crate::bitboard::lemma_bit_mask_test(side_bits(g.board, spec_turn(g.state).spec_flip()), m.to as u64);
}

/// A pseudo-legal destination is never one of the mover's own
/// squares.
proof fn lemma_target_not_own(g: GameModel, m: MovModel)
    requires
        bit_at(spec_game_pseudo_targets(g, m.from as u64), m.to as u64),
        m.to < 64,
    ensures
        (spec_piece_at(g.board, m.from as u64) matches Some(sp) ==> !bit_at(
            side_bits(g.board, sp.0),
            m.to as u64,
        )),
{
    reveal(spec_game_pseudo_targets);
    crate::bitboard::lemma_bit_empty(m.to as u64);
}

/// The knight, bishop and queen dispatch case edits only the origin
/// and destination squares.
#[verifier::rlimit(100)]
proof fn lemma_simple_step_untouched(
    b: BoardModel,
    s1: u16,
    z1: u32,
    halfmove0: u32,
    side: Side,
    opponent: Side,
    piece: Piece,
    m: MovModel,
    h: u64,
)
    requires
        m.from < 64,
        m.to < 64,
        h < 64,
        h != m.from as u64,
        h != m.to as u64,
    ensures
        (crate::game::spec_simple_step(b, s1, z1, halfmove0, side, opponent, piece, m)
            matches Ok(t) ==> spec_piece_at(t.0, h) == spec_piece_at(b, h)),
{
    let from = m.from as u64;
    let to = m.to as u64;
    if (sq_bb(to) & side_bits(b, opponent)) != 0 {
        let b1 = spec_clear_piece(b, to);
        let b2 = spec_clear_piece(b1, from);
        assert(spec_piece_at(b1, h) == spec_piece_at(b, h));
        assert(spec_piece_at(b2, h) == spec_piece_at(b1, h));
        assert(spec_piece_at(spec_set_piece(b2, side, piece, to), h) == spec_piece_at(b2, h));
    } else {
        let b1 = spec_clear_piece(b, from);
        assert(spec_piece_at(b1, h) == spec_piece_at(b, h));
        assert(spec_piece_at(spec_set_piece(b1, side, piece, to), h) == spec_piece_at(b1, h));
    }
}

/// The rook dispatch case edits only the origin and destination
/// squares.
#[verifier::rlimit(100)]
proof fn lemma_rook_step_untouched(
    b: BoardModel,
    s1: u16,
    z1: u32,
    halfmove0: u32,
    side: Side,
    opponent: Side,
    old_state: u16,
    m: MovModel,
    h: u64,
)
    requires
        m.from < 64,
        m.to < 64,
        h < 64,
        h != m.from as u64,
        h != m.to as u64,
    ensures
        (crate::game::spec_rook_step(b, s1, z1, halfmove0, side, opponent, old_state, m)
            matches Ok(t) ==> spec_piece_at(t.0, h) == spec_piece_at(b, h)),
{
    let from = m.from as u64;
    let to = m.to as u64;
    if (sq_bb(to) & side_bits(b, opponent)) != 0 {
        let b1 = spec_clear_piece(b, to);
        let b2 = spec_clear_piece(b1, from);
        assert(spec_piece_at(b1, h) == spec_piece_at(b, h));
        assert(spec_piece_at(b2, h) == spec_piece_at(b1, h));
        assert(spec_piece_at(spec_set_piece(b2, side, Piece::Rook, to), h) == spec_piece_at(
            b2,
            h,
        ));
    } else {
        let b1 = spec_clear_piece(b, from);
        assert(spec_piece_at(b1, h) == spec_piece_at(b, h));
        assert(spec_piece_at(spec_set_piece(b1, side, Piece::Rook, to), h) == spec_piece_at(
            b1,
            h,
        ));
    }
}

/// The king dispatch case edits only the origin, the destination, and
/// on castling the rook's corner and crossing square.
#[verifier::rlimit(100)]
proof fn lemma_king_step_untouched(
    b: BoardModel,
    s1: u16,
    z1: u32,
    halfmove0: u32,
    side: Side,
    opponent: Side,
    old_state: u16,
    m: MovModel,
    h: u64,
)
    requires
        m.from < 64,
        m.to < 64,
        h < 64,
        h != m.from as u64,
        h != m.to as u64,
        h != ks_rook_home(side),
        h != qs_rook_home(side),
        h != (king_home(side) + 1) as u64,
        h != (king_home(side) - 1) as u64,
    ensures
        (crate::game::spec_king_step(b, s1, z1, halfmove0, side, opponent, old_state, m)
            matches Ok(t) ==> spec_piece_at(t.0, h) == spec_piece_at(b, h)),
{
    let from = m.from as u64;
    let to = m.to as u64;
    if (sq_bb(to) & side_bits(b, opponent)) != 0 {
        let b1 = spec_clear_piece(b, to);
        let b2 = spec_clear_piece(b1, from);
        assert(spec_piece_at(b1, h) == spec_piece_at(b, h));
        assert(spec_piece_at(b2, h) == spec_piece_at(b1, h));
        assert(spec_piece_at(spec_set_piece(b2, side, Piece::King, to), h) == spec_piece_at(
            b2,
            h,
        ));
    } else {
        if from == king_home(side) && to == king_home(side) + 2 {
            let bc1 = spec_clear_piece(b, ks_rook_home(side));
            let bc2 = spec_set_piece(bc1, side, Piece::Rook, (king_home(side) + 1) as u64);
            assert(spec_piece_at(bc1, h) == spec_piece_at(b, h));
            assert(spec_piece_at(bc2, h) == spec_piece_at(bc1, h));
            let bc3 = spec_clear_piece(bc2, from);
            assert(spec_piece_at(bc3, h) == spec_piece_at(bc2, h));
            assert(spec_piece_at(spec_set_piece(bc3, side, Piece::King, to), h) == spec_piece_at(
                bc3,
                h,
            ));
        } else if from == king_home(side) && to == (king_home(side) - 2) as u64 {
            let bc1 = spec_clear_piece(b, qs_rook_home(side));
            let bc2 = spec_set_piece(bc1, side, Piece::Rook, (king_home(side) - 1) as u64);
            assert(spec_piece_at(bc1, h) == spec_piece_at(b, h));
            assert(spec_piece_at(bc2, h) == spec_piece_at(bc1, h));
            let bc3 = spec_clear_piece(bc2, from);
            assert(spec_piece_at(bc3, h) == spec_piece_at(bc2, h));
            assert(spec_piece_at(spec_set_piece(bc3, side, Piece::King, to), h) == spec_piece_at(
                bc3,
                h,
            ));
        } else {
            let b1 = spec_clear_piece(b, from);
            assert(spec_piece_at(b1, h) == spec_piece_at(b, h));
            assert(spec_piece_at(spec_set_piece(b1, side, Piece::King, to), h) == spec_piece_at(
                b1,
                h,
            ));
        }
    }
}

/// The pawn dispatch case edits only the origin, the destination, and
/// on an en-passant capture the square behind the destination.
#[verifier::rlimit(100)]
proof fn lemma_pawn_step_untouched(
    b: BoardModel,
    s1: u16,
    z1: u32,
    halfmove0: u32,
    side: Side,
    opponent: Side,
    m: MovModel,
    h: u64,
)
    requires
        m.from < 64,
        m.to < 64,
        h < 64,
        h != m.from as u64,
        h != m.to as u64,
        (m.from % 8 != m.to % 8 && (sq_bb(m.to as u64) & side_bits(b, opponent)) == 0) ==> (h != (
        m.to - 8) as u64 && h != (m.to + 8) as u64),
    ensures
        (crate::game::spec_pawn_step(b, s1, z1, halfmove0, side, opponent, m) matches Ok(t)
            ==> spec_piece_at(t.0, h) == spec_piece_at(b, h)),
{
    let from = m.from as u64;
    let to = m.to as u64;
    if (m.from / 8 == 1 && m.to / 8 == 3) || (m.from / 8 == 6 && m.to / 8 == 4) {
        let b1 = spec_clear_piece(b, from);
        assert(spec_piece_at(b1, h) == spec_piece_at(b, h));
        assert(spec_piece_at(spec_set_piece(b1, side, Piece::Pawn, to), h) == spec_piece_at(
            b1,
            h,
        ));
    } else if m.from % 8 != m.to % 8 {
        let en_passant = (sq_bb(to) & side_bits(b, opponent)) == 0;
        if en_passant && side == Side::White && to < 8 {
        } else if en_passant && side == Side::Black && to >= 56 {
        } else {
            let captured_square = if en_passant {
                if side == Side::White {
                    (to - 8) as u64
                } else {
                    (to + 8) as u64
                }
            } else {
                to
            };
            let b1 = spec_clear_piece(b, captured_square);
            assert(spec_piece_at(b1, h) == spec_piece_at(b, h));
            lemma_pawn_place_untouched(b1, s1, z1, side, m, h);
        }
    } else {
        lemma_pawn_place_untouched(b, s1, z1, side, m, h);
    }
}

/// Placing the pawn or its promotion piece edits only the origin and
/// destination squares.
#[verifier::rlimit(100)]
proof fn lemma_pawn_place_untouched(b: BoardModel, s1: u16, z1: u32, side: Side, m: MovModel, h: u64)
    requires
        m.from < 64,
        m.to < 64,
        h < 64,
        h != m.from as u64,
        h != m.to as u64,
    ensures
        (crate::game::spec_pawn_place(b, s1, z1, side, m) matches Ok(t) ==> spec_piece_at(t.0, h)
            == spec_piece_at(b, h)),
{
    let from = m.from as u64;
    let to = m.to as u64;
    let b1 = spec_clear_piece(b, from);
    assert(spec_piece_at(b1, h) == spec_piece_at(b, h));
    if to / 8 == 7 || to / 8 == 0 {
        match m.promotion {
            None => (),
            Some(new_piece) => {
                assert(spec_piece_at(spec_set_piece(b1, side, new_piece, to), h) == spec_piece_at(
                    b1,
                    h,
                ));
            },
        }
    } else {
        assert(spec_piece_at(spec_set_piece(b1, side, Piece::Pawn, to), h) == spec_piece_at(
            b1,
            h,
        ));
    }
}

/// A square no step of the transition edits holds the same piece
/// afterwards.
#[verifier::rlimit(100)]
proof fn lemma_make_pseudo_untouched(g: GameModel, m: MovModel, g2: GameModel, h: u64)
    requires
        spec_make_pseudo(g, m) == Ok::<GameModel, Error>(g2),
        m.from < 64,
        m.to < 64,
        h < 64,
        h != m.from as u64,
        h != m.to as u64,
        ((spec_piece_at(g.board, m.from as u64) matches Some(sp) && sp.1 == Piece::Pawn) && m.from
            % 8 != m.to % 8 && (sq_bb(m.to as u64) & side_bits(
            g.board,
            spec_turn(g.state).spec_flip(),
        )) == 0) ==> (h != (m.to - 8) as u64 && h != (m.to + 8) as u64),
        (spec_piece_at(g.board, m.from as u64) matches Some(sp) && sp.1 == Piece::King) ==> (h
            != ks_rook_home(spec_turn(g.state)) && h != qs_rook_home(spec_turn(g.state)) && h != (
        king_home(spec_turn(g.state)) + 1) as u64 && h != (king_home(spec_turn(g.state))
            - 1) as u64),
    ensures
        spec_piece_at(g2.board, h) == spec_piece_at(g.board, h),
{
    reveal(spec_make_pseudo);
    let side = spec_turn(g.state);
    let opponent = side.spec_flip();
    let piece = spec_piece_at(g.board, m.from as u64)->Some_0.1;
    let halfmove0 = sat_inc(g.halfmove_clock);
    let s1 = st_with_bit((g.state & 0xff00) as u16, 12, opponent == Side::White);
    let z1 = crate::game::flip_file_keys(g.zobrist, crate::state::spec_open_files(g.state, 8))
        ^ key_at(780);
    match piece {
        Piece::Pawn => {
            lemma_pawn_step_untouched(g.board, s1, z1, halfmove0, side, opponent, m, h);
        },
        Piece::King => {
            lemma_king_step_untouched(g.board, s1, z1, halfmove0, side, opponent, g.state, m, h);
        },
        Piece::Rook => {
            lemma_rook_step_untouched(g.board, s1, z1, halfmove0, side, opponent, g.state, m, h);
        },
        _ => {
            lemma_simple_step_untouched(g.board, s1, z1, halfmove0, side, opponent, piece, m, h);
        },
    }
}

/// The rights invariant survives a move: every right still held
/// afterwards is still backed by the rook on its home square.
pub proof fn lemma_rights_consistent_preserved(g: GameModel, m: MovModel, g2: GameModel)
    requires
        spec_make_move(g, m) == Ok::<GameModel, Error>(g2),
        board_wf(g.board),
        ep_consistent(g),
        rights_consistent(g),
    ensures
        rights_consistent(g2),
{
    lemma_rights_monotone(g, m, g2);
    if st_bit(g2.state, king_side_bit(Side::White)) {
        lemma_right_preserved(g, m, g2, Side::White, true);
    }
    if st_bit(g2.state, queen_side_bit(Side::White)) {
        lemma_right_preserved(g, m, g2, Side::White, false);
    }
    if st_bit(g2.state, king_side_bit(Side::Black)) {
        lemma_right_preserved(g, m, g2, Side::Black, true);
    }
    if st_bit(g2.state, queen_side_bit(Side::Black)) {
        lemma_right_preserved(g, m, g2, Side::Black, false);
    }
}

/// One still-held right keeps its rook at home through a move.
#[verifier::rlimit(100)]
proof fn lemma_right_preserved(g: GameModel, m: MovModel, g2: GameModel, owner: Side, king_wing: bool)
    requires
        spec_make_move(g, m) == Ok::<GameModel, Error>(g2),
        board_wf(g.board),
        ep_consistent(g),
        rights_consistent(g),
        st_bit(
            g2.state,
            if king_wing {
                king_side_bit(owner)
            } else {
                queen_side_bit(owner)
            },
        ),
    ensures
        spec_piece_at(
            g2.board,
            if king_wing {
                ks_rook_home(owner)
            } else {
                qs_rook_home(owner)
            },
        ) == Some((owner, Piece::Rook)),
{
    lemma_rights_monotone(g, m, g2);
    let side = spec_turn(g.state);
    let opponent = side.spec_flip();
    let from = m.from as u64;
    let to = m.to as u64;
    let h = if king_wing {
        ks_rook_home(owner)
    } else {
        qs_rook_home(owner)
    };
    crate::bitboard::lemma_bit_oob(spec_game_pseudo_targets(g, from), to);
    crate::bitboard::lemma_bit_oob(side_bits(g.board, side), from);
    lemma_target_not_own(g, m);
    let piece = spec_piece_at(g.board, from)->Some_0.1;
    if piece == Piece::Pawn {
        lemma_geometry_pawn(g, m);
    }
    assert(square_wf(g.board, h));
    // The mover never starts on the protected home square: an owner's
    // rook leaving home would have revoked the right.
    if from == h {
        lemma_make_pseudo_rook_revokes(g, m, g2);
        assert(false);
    }
    // An owner's king move would have revoked the right too.
    if piece == Piece::King && owner == side {
        lemma_make_pseudo_king_revokes(g, m, g2);
        assert(false);
    }
    // The destination never lands on the protected home square: an
    // owned rook blocks the mover's own side, and capturing the
    // opponent's home rook would have revoked the right.
    if to == h {
        assert(owner == opponent);
        if piece == Piece::Pawn {
            // A pawn reaching a corner neither double-pushes nor moves
            // straight onto the occupied square.
            assert(!((m.from / 8 == 1 && m.to / 8 == 3) || (m.from / 8 == 6 && m.to / 8 == 4)));
            assert(m.from % 8 != m.to % 8);
        }
        lemma_make_pseudo_capture_revokes(g, m, g2);
        assert(false);
    }
    lemma_make_pseudo_untouched(g, m, g2, h);
}

/// A self-consistent position: the placements are well formed, every
/// open en-passant file and every held castling right is backed by
/// the board, and the stored hash equals the from-scratch hash of the
/// position's features.  The standard starting position is one.
pub open spec fn good_position(g: GameModel) -> bool {
    board_wf(g.board) && ep_consistent(g) && rights_consistent(g) && g.zobrist == position_hash(
        g.board,
        g.state,
    )
}

/// Self-consistency survives every accepted move.  Along any game
/// played out from a self-consistent position the hash therefore
/// always equals the from-scratch hash, so any two move sequences
/// reaching the same placements, rights, en-passant state and turn
/// carry the same hash.
pub proof fn lemma_good_position_preserved(g: GameModel, m: MovModel, g2: GameModel)
    requires
        spec_make_move(g, m) == Ok::<GameModel, Error>(g2),
        good_position(g),
    ensures
        good_position(g2),
{
    lemma_hash_consistency(g, m, g2);
    lemma_ep_consistent_preserved(g, m, g2);
    lemma_rights_consistent_preserved(g, m, g2);
}

/// The legality filter and the transition agree: a move passes the
/// generator's legality test exactly when applying it succeeds.
pub proof fn lemma_legal_iff_accepted(g: GameModel, m: MovModel)
    ensures
        spec_is_legal(g, m) <==> spec_make_move(g, m) is Ok,
{
    reveal(spec_is_legal);
    reveal(spec_make_pseudo);
}

/// Some legal move exists exactly when some move is accepted: the
/// result of `has_legal_moves` decides whether any move at all would
/// go through, so it is false in exactly the checkmate and stalemate
/// positions.
pub proof fn lemma_some_legal_iff_some_accepted(g: GameModel)
    ensures
        (exists|m: MovModel| spec_is_legal(g, m)) <==> (exists|m: MovModel|
            spec_make_move(g, m) is Ok),
{
    if exists|m: MovModel| spec_is_legal(g, m) {
        let m = choose|m: MovModel| spec_is_legal(g, m);
        lemma_legal_iff_accepted(g, m);
        assert(spec_make_move(g, m) is Ok);
    }
    if exists|m: MovModel| spec_make_move(g, m) is Ok {
        let m = choose|m: MovModel| spec_make_move(g, m) is Ok;
        lemma_legal_iff_accepted(g, m);
        assert(spec_is_legal(g, m));
    }
}

/// The hash is a function of the position alone: two games holding
/// the same placements and flags, each with its hash computed from
/// the position, carry the same hash.
pub proof fn lemma_equal_positions_equal_hash(g1: GameModel, g2: GameModel)
    requires
        g1.board == g2.board,
        g1.state == g2.state,
        g1.zobrist == position_hash(g1.board, g1.state),
        g2.zobrist == position_hash(g2.board, g2.state),
    ensures
        g1.zobrist == g2.zobrist,
{
}

// ---------------------------------------------------------------
// Hash consistency: the incremental key flips of move application
// agree with recomputing the hash of the changed position features.
// ---------------------------------------------------------------

/// A square held by no side set and no kind set.
pub open spec fn square_empty(m: BoardModel, i: u64) -> bool {
    !bit_at(m.white, i) && !bit_at(m.black, i) && !bit_at(m.pawns, i) && !bit_at(m.knights, i)
        && !bit_at(m.bishops, i) && !bit_at(m.rooks, i) && !bit_at(m.queens, i) && !bit_at(
        m.kings,
        i,
    )
}


/// A well-formed placement: no square is held by both sides, and an
/// unoccupied square is held by no kind set either.
pub open spec fn square_wf(m: BoardModel, i: u64) -> bool {
    !(bit_at(m.white, i) && bit_at(m.black, i)) && ((!bit_at(m.white, i) && !bit_at(m.black, i))
        ==> square_empty(m, i))
}

pub open spec fn board_wf(m: BoardModel) -> bool {
    forall|i: u64| i < 64 ==> #[trigger] square_wf(m, i)
}

/// Changing one square changes the placement hash by that square's
/// old and new keys.
proof fn lemma_board_hash_pointwise(m1: BoardModel, m2: BoardModel, i: int, n: int)
    requires
        0 <= i,
        forall|j: int| 0 <= j < n && j != i ==> square_key(m1, j) == square_key(m2, j),
    ensures
        i < n ==> board_hash_upto(m2, n) == board_hash_upto(m1, n) ^ (square_key(m1, i)
            ^ square_key(m2, i)),
        i >= n ==> board_hash_upto(m2, n) == board_hash_upto(m1, n),
    decreases n,
{
    if n > 0 {
        lemma_board_hash_pointwise(m1, m2, i, n - 1);
        let a = board_hash_upto(m1, n - 1);
        let k1 = square_key(m1, n - 1);
        let k2 = square_key(m2, n - 1);
        let d = square_key(m1, i) ^ square_key(m2, i);
        if i == n - 1 {
            // upto(m2, n) == (a ^ k1) ^ (k1 ^ k2)
            crate::bitboard::lemma_xor32(a, k1, k2);
            crate::bitboard::lemma_xor32(k1, k1, k2);
            crate::bitboard::lemma_xor32(a ^ k1, k1, k2);
        } else if i < n - 1 {
            // upto(m2, n) == ((a ^ d) ^ k1)
            crate::bitboard::lemma_xor32(a, d, k1);
            crate::bitboard::lemma_xor32(a, k1, d);
            crate::bitboard::lemma_xor32(d, k1, 0);
        }
    }
}

/// Clearing a square flips exactly that square's key out of the
/// placement hash.
proof fn lemma_board_hash_clear(m: BoardModel, i: u64)
    requires
        i < 64,
    ensures
        board_hash(spec_clear_piece(m, i)) == board_hash(m) ^ square_key(m, i as int),
{
    let m2 = spec_clear_piece(m, i);
    assert forall|j: int| 0 <= j < 64 && j != i implies square_key(m, j) == square_key(m2, j) by {
        assert(spec_piece_at(m2, j as u64) == spec_piece_at(m, j as u64));
    }
    lemma_board_hash_pointwise(m, m2, i as int, 64);
    assert(spec_piece_at(m2, i as u64) is None);
    crate::bitboard::lemma_xor32(square_key(m, i as int), 0, 0);
}

/// Placing a piece on a fully empty square flips exactly the placed
/// feature's key into the placement hash.
proof fn lemma_board_hash_set(m: BoardModel, side: Side, piece: Piece, i: u64)
    requires
        i < 64,
        square_empty(m, i),
    ensures
        board_hash(spec_set_piece(m, side, piece, i)) == board_hash(m) ^ key_at(
            piece_key_index(side, piece, i as int),
        ),
{
    let m2 = spec_set_piece(m, side, piece, i);
    assert forall|j: int| 0 <= j < 64 && j != i implies square_key(m, j) == square_key(m2, j) by {
        assert(spec_piece_at(m2, j as u64) == spec_piece_at(m, j as u64));
    }
    lemma_board_hash_pointwise(m, m2, i as int, 64);
    assert(spec_piece_at(m, i as u64) is None);
    assert(spec_piece_at(m2, i as u64) == Some((side, piece)));
    crate::bitboard::lemma_xor32(0, key_at(piece_key_index(side, piece, i as int)), 0);
    crate::bitboard::lemma_xor32(key_at(piece_key_index(side, piece, i as int)), 0, 0);
}

/// Changing one flag bit changes the flag hash by that bit's old and
/// new contributions.
proof fn lemma_state_hash_pointwise(s1: u16, s2: u16, c: int, n: int)
    requires
        0 <= c,
        forall|b: int| 0 <= b < n && b != c ==> flag_key(s1, b) == flag_key(s2, b),
    ensures
        c < n ==> state_hash_upto(s2, n) == state_hash_upto(s1, n) ^ (flag_key(s1, c) ^ flag_key(
            s2,
            c,
        )),
        c >= n ==> state_hash_upto(s2, n) == state_hash_upto(s1, n),
    decreases n,
{
    if n > 0 {
        lemma_state_hash_pointwise(s1, s2, c, n - 1);
        let a = state_hash_upto(s1, n - 1);
        let k1 = flag_key(s1, n - 1);
        let k2 = flag_key(s2, n - 1);
        let d = flag_key(s1, c) ^ flag_key(s2, c);
        if c == n - 1 {
            crate::bitboard::lemma_xor32(a, k1, k2);
            crate::bitboard::lemma_xor32(k1, k1, k2);
            crate::bitboard::lemma_xor32(a ^ k1, k1, k2);
        } else if c < n - 1 {
            crate::bitboard::lemma_xor32(a, d, k1);
            crate::bitboard::lemma_xor32(a, k1, d);
            crate::bitboard::lemma_xor32(d, k1, 0);
        }
    }
}

/// Forcing one flag bit to a fresh value flips that flag's key in the
/// flag hash; forcing it to its old value changes nothing.
proof fn lemma_state_hash_with_bit(s: u16, b: u16, v: bool)
    requires
        b < 13,
    ensures
        st_bit(s, b) != v ==> state_hash(st_with_bit(s, b, v)) == state_hash(s) ^ key_at(
            flag_key_index(b as int),
        ),
        st_bit(s, b) == v ==> state_hash(st_with_bit(s, b, v)) == state_hash(s),
{
    let s2 = st_with_bit(s, b, v);
    assert forall|c: int| 0 <= c < 13 && c != b implies flag_key(s, c) == flag_key(s2, c) by {
        assert(st_bit(s2, c as u16) == st_bit(s, c as u16));
    }
    lemma_state_hash_pointwise(s, s2, b as int, 13);
    if st_bit(s, b) != v {
        crate::bitboard::lemma_xor32(key_at(flag_key_index(b as int)), 0, 0);
        crate::bitboard::lemma_xor32(0, key_at(flag_key_index(b as int)), 0);
    } else {
        crate::bitboard::lemma_xor32(state_hash(s), 0, 0);
        crate::bitboard::lemma_xor32(flag_key(s, b as int), flag_key(s, b as int), 0);
    }
}

/// Masking the flag word to its high byte removes exactly the open
/// en-passant contributions from the flag hash.
proof fn lemma_state_hash_mask(s: u16, n: int)
    requires
        8 <= n <= 13,
    ensures
        state_hash_upto((s & 0xff00) as u16, n) ^ state_hash_upto(s, 8) == state_hash_upto(s, n),
    decreases n,
{
    let masked = (s & 0xff00) as u16;
    if n == 8 {
        lemma_state_hash_low_zero(masked, 8);
        crate::bitboard::lemma_xor32(0, state_hash_upto(s, 8), 0);
        crate::bitboard::lemma_xor32(state_hash_upto(s, 8), 0, 0);
    } else {
        lemma_state_hash_mask(s, n - 1);
        let a = state_hash_upto(masked, n - 1);
        let e = state_hash_upto(s, 8);
        let k = flag_key(masked, n - 1);
        assert(st_bit(masked, (n - 1) as u16) == st_bit(s, (n - 1) as u16));
        crate::bitboard::lemma_xor32(a, k, e);
        crate::bitboard::lemma_xor32(k, e, 0);
        crate::bitboard::lemma_xor32(a, e, k);
    }
}

/// Every low flag bit of the masked word is clear, so its low flag
/// hash is zero.
proof fn lemma_state_hash_low_zero(masked: u16, n: int)
    requires
        n <= 8,
        forall|b: int| 0 <= b < 8 ==> !(#[trigger] st_bit(masked, b as u16)),
    ensures
        state_hash_upto(masked, n) == 0,
    decreases n,
{
    if n > 0 {
        lemma_state_hash_low_zero(masked, n - 1);
        crate::bitboard::lemma_xor32(0, 0, 0);
    }
}

/// Folding the open files' keys into a hash equals folding in the low
/// flag hash: the open files are exactly the set low flag bits.
proof fn lemma_flip_file_keys(z: u32, s: u16, n: int)
    requires
        0 <= n <= 8,
    ensures
        crate::game::flip_file_keys(z, crate::state::spec_open_files(s, n)) == z
            ^ state_hash_upto(s, n),
    decreases n,
{
    if n == 0 {
        crate::bitboard::lemma_xor32(z, 0, 0);
    } else {
        lemma_flip_file_keys(z, s, n - 1);
        let files = crate::state::spec_open_files(s, n);
        let rest = crate::state::spec_open_files(s, n - 1);
        let a = z ^ state_hash_upto(s, n - 1);
        let k = key_at(flag_key_index(n - 1));
        if st_bit(s, (n - 1) as u16) {
            assert(files == rest.push(crate::state::spec_file_of(n - 1)));
            assert(files.drop_last() =~= rest);
            assert(crate::state::spec_file_of(n - 1).spec_index() == n - 1);
            assert(en_passant_key_index(crate::state::spec_file_of(n - 1).spec_index() as int)
                == flag_key_index(n - 1));
            crate::bitboard::lemma_xor32(z, state_hash_upto(s, n - 1), k);
        } else {
            crate::bitboard::lemma_xor32(state_hash_upto(s, n - 1), 0, 0);
        }
    }
}


/// Exclusive-or lets a key pass across the flag half of the hash.
proof fn lemma_xor_rotate(a: u32, b: u32, k: u32)
    ensures
        (a ^ b) ^ k == (a ^ k) ^ b,
{
    crate::bitboard::lemma_xor32(a, b, k);
    crate::bitboard::lemma_xor32(b, k, 0);
    crate::bitboard::lemma_xor32(a, k, b);
}

/// Lifting a piece off a square keeps the hash consistent.
proof fn lemma_consist_clear(b: BoardModel, s: u16, z: u32, i: u64, side: Side, piece: Piece)
    requires
        z == board_hash(b) ^ state_hash(s),
        i < 64,
        spec_piece_at(b, i as u64) == Some((side, piece)),
    ensures
        z ^ key_at(piece_key_index(side, piece, i as int)) == board_hash(spec_clear_piece(b, i))
            ^ state_hash(s),
{
    lemma_board_hash_clear(b, i);
    lemma_xor_rotate(board_hash(b), state_hash(s), key_at(piece_key_index(side, piece, i as int)));
}

/// Putting a piece down on a fully empty square keeps the hash
/// consistent.
proof fn lemma_consist_set(b: BoardModel, s: u16, z: u32, i: u64, side: Side, piece: Piece)
    requires
        z == board_hash(b) ^ state_hash(s),
        i < 64,
        square_empty(b, i),
    ensures
        z ^ key_at(piece_key_index(side, piece, i as int)) == board_hash(
            spec_set_piece(b, side, piece, i),
        ) ^ state_hash(s),
{
    lemma_board_hash_set(b, side, piece, i);
    lemma_xor_rotate(board_hash(b), state_hash(s), key_at(piece_key_index(side, piece, i as int)));
}

/// Forcing a flag bit to a fresh value keeps the hash consistent.
proof fn lemma_consist_flag(b: BoardModel, s: u16, z: u32, bit: u16, v: bool)
    requires
        z == board_hash(b) ^ state_hash(s),
        bit < 13,
        st_bit(s, bit) != v,
    ensures
        z ^ key_at(flag_key_index(bit as int)) == board_hash(b) ^ state_hash(
            st_with_bit(s, bit, v),
        ),
{
    lemma_state_hash_with_bit(s, bit, v);
    crate::bitboard::lemma_xor32(board_hash(b), state_hash(s), key_at(flag_key_index(bit as int)));
}

/// The common opening of move application — closing the open
/// en-passant files and flipping the turn — keeps the hash consistent.
proof fn lemma_consist_prelude(b: BoardModel, s: u16, z: u32, side: Side)
    requires
        z == board_hash(b) ^ state_hash(s),
        side == spec_turn(s),
    ensures
        crate::game::flip_file_keys(z, crate::state::spec_open_files(s, 8)) ^ key_at(780)
            == board_hash(b) ^ state_hash(
            st_with_bit((s & 0xff00) as u16, 12, side.spec_flip() == Side::White),
        ),
{
    let masked = (s & 0xff00) as u16;
    let low = state_hash_upto(s, 8);
    lemma_flip_file_keys(z, s, 8);
    lemma_state_hash_mask(s, 13);
    // state_hash(masked) == state_hash(s) ^ low
    crate::bitboard::lemma_xor32(state_hash(masked), low, 0);
    lemma_state_hash_with_bit(masked, 12, side.spec_flip() == Side::White);
    // (bh ^ sh) ^ low ^ k780 == bh ^ ((sh ^ low) ^ k780)
    crate::bitboard::lemma_xor32(board_hash(b), state_hash(s), low);
    crate::bitboard::lemma_xor32(board_hash(b), state_hash(s) ^ low, key_at(780));
}

/// The knight, bishop and queen dispatch case keeps the hash
/// consistent.
#[verifier::rlimit(100)]
proof fn lemma_consist_simple_step(
    b: BoardModel,
    s1: u16,
    z1: u32,
    halfmove0: u32,
    side: Side,
    opponent: Side,
    piece: Piece,
    m: MovModel,
)
    requires
        z1 == board_hash(b) ^ state_hash(s1),
        board_wf(b),
        m.from < 64,
        m.to < 64,
        m.from != m.to,
        spec_piece_at(b, m.from as u64) == Some((side, piece)),
        opponent == side.spec_flip(),
        !bit_at(side_bits(b, side), m.to as u64),
        crate::game::spec_simple_step(b, s1, z1, halfmove0, side, opponent, piece, m) is Ok,
    ensures
        (crate::game::spec_simple_step(b, s1, z1, halfmove0, side, opponent, piece, m)
            matches Ok(t) && t.2 == board_hash(t.0) ^ state_hash(t.1) && board_wf(t.0)),
{
    let from = m.from as u64;
    let to = m.to as u64;
    crate::bitboard::lemma_bit_mask_test(side_bits(b, opponent), to);
    assert(square_wf(b, to));
    if (sq_bb(to) & side_bits(b, opponent)) != 0 {
        let cp = spec_piece_at(b, to)->Some_0.1;
        assert(spec_piece_at(b, to) == Some((opponent, cp)));
        lemma_consist_clear(b, s1, z1, to, opponent, cp);
        let b1 = spec_clear_piece(b, to);
        lemma_wf_clear(b, to);
        assert(square_empty(b1, to));
        let z2 = z1 ^ key_at(piece_key_index(opponent, cp, to as int));
        lemma_consist_clear(b1, s1, z2, from, side, piece);
        let b2 = spec_clear_piece(b1, from);
        lemma_wf_clear(b1, from);
        assert(square_empty(b2, to));
        let z3 = z2 ^ key_at(piece_key_index(side, piece, from as int));
        lemma_consist_set(b2, s1, z3, to, side, piece);
        lemma_wf_set(b2, side, piece, to);
    } else {
        assert(square_empty(b, to));
        lemma_consist_clear(b, s1, z1, from, side, piece);
        let b1 = spec_clear_piece(b, from);
        lemma_wf_clear(b, from);
        assert(square_empty(b1, to));
        let z2 = z1 ^ key_at(piece_key_index(side, piece, from as int));
        lemma_consist_set(b1, s1, z2, to, side, piece);
        lemma_wf_set(b1, side, piece, to);
    }
}


/// The rook dispatch case keeps the hash consistent.
#[verifier::rlimit(100)]
proof fn lemma_consist_rook_step(
    b: BoardModel,
    s1: u16,
    z1: u32,
    halfmove0: u32,
    side: Side,
    opponent: Side,
    old_state: u16,
    m: MovModel,
)
    requires
        z1 == board_hash(b) ^ state_hash(s1),
        board_wf(b),
        m.from < 64,
        m.to < 64,
        m.from != m.to,
        spec_piece_at(b, m.from as u64) == Some((side, Piece::Rook)),
        opponent == side.spec_flip(),
        !bit_at(side_bits(b, side), m.to as u64),
        st_bit(s1, king_side_bit(side)) == st_bit(old_state, king_side_bit(side)),
        st_bit(s1, queen_side_bit(side)) == st_bit(old_state, queen_side_bit(side)),
        crate::game::spec_rook_step(b, s1, z1, halfmove0, side, opponent, old_state, m) is Ok,
    ensures
        (crate::game::spec_rook_step(b, s1, z1, halfmove0, side, opponent, old_state, m)
            matches Ok(t) && t.2 == board_hash(t.0) ^ state_hash(t.1) && board_wf(t.0)),
{
    let from = m.from as u64;
    let to = m.to as u64;
    crate::bitboard::lemma_bit_mask_test(side_bits(b, opponent), to);
    assert(square_wf(b, to));
    if (sq_bb(to) & side_bits(b, opponent)) != 0 {
        let cp = spec_piece_at(b, to)->Some_0.1;
        assert(spec_piece_at(b, to) == Some((opponent, cp)));
        lemma_consist_clear(b, s1, z1, to, opponent, cp);
        let b1 = spec_clear_piece(b, to);
        lemma_wf_clear(b, to);
        assert(square_empty(b1, to));
        let z2 = z1 ^ key_at(piece_key_index(opponent, cp, to as int));
        lemma_consist_rook_finish(b1, s1, z2, side, old_state, m);
    } else {
        assert(square_empty(b, to));
        lemma_consist_rook_finish(b, s1, z1, side, old_state, m);
    }
}

/// The tail of the rook case — the wing revocation and the
/// relocation — keeps the hash consistent.
#[verifier::rlimit(100)]
proof fn lemma_consist_rook_finish(b: BoardModel, s1: u16, z1: u32, side: Side, old_state: u16, m: MovModel)
    requires
        z1 == board_hash(b) ^ state_hash(s1),
        m.from < 64,
        m.to < 64,
        m.from != m.to,
        spec_piece_at(b, m.from as u64) == Some((side, Piece::Rook)),
        square_empty(b, m.to as u64),
        st_bit(s1, king_side_bit(side)) == st_bit(old_state, king_side_bit(side)),
        st_bit(s1, queen_side_bit(side)) == st_bit(old_state, queen_side_bit(side)),
        board_wf(b),
    ensures
        forall|halfmove: u32, captured: bool|
            (#[trigger] crate::game::spec_rook_finish(b, s1, z1, halfmove, side, old_state, m, captured)
                matches Ok(t) && t.2 == board_hash(t.0) ^ state_hash(t.1) && board_wf(t.0)),
{
    let from = m.from as u64;
    let to = m.to as u64;
    let revoke_ks = from == crate::game::ks_rook_home(side) && st_bit(
        old_state,
        king_side_bit(side),
    );
    let revoke_qs = !revoke_ks && from == crate::game::qs_rook_home(side) && st_bit(
        old_state,
        queen_side_bit(side),
    );
    let s2 = if revoke_ks {
        st_with_bit(s1, king_side_bit(side), false)
    } else if revoke_qs {
        st_with_bit(s1, queen_side_bit(side), false)
    } else {
        s1
    };
    let z2 = if revoke_ks {
        z1 ^ key_at(king_castling_key_index(side))
    } else if revoke_qs {
        z1 ^ key_at(queen_castling_key_index(side))
    } else {
        z1
    };
    if revoke_ks {
        lemma_consist_flag(b, s1, z1, king_side_bit(side), false);
    } else if revoke_qs {
        lemma_consist_flag(b, s1, z1, queen_side_bit(side), false);
    }
    assert(z2 == board_hash(b) ^ state_hash(s2));
    lemma_consist_clear(b, s2, z2, from, side, Piece::Rook);
    let b1 = spec_clear_piece(b, from);
    lemma_wf_clear(b, from);
    assert(square_empty(b1, to));
    let z3 = z2 ^ key_at(piece_key_index(side, Piece::Rook, from as int));
    lemma_consist_set(b1, s2, z3, to, side, Piece::Rook);
    lemma_wf_set(b1, side, Piece::Rook, to);
}

/// The king dispatch case keeps the hash consistent.
#[verifier::rlimit(100)]
proof fn lemma_consist_king_step(
    b: BoardModel,
    s1: u16,
    z1: u32,
    halfmove0: u32,
    side: Side,
    opponent: Side,
    old_state: u16,
    m: MovModel,
)
    requires
        z1 == board_hash(b) ^ state_hash(s1),
        board_wf(b),
        m.from < 64,
        m.to < 64,
        m.from != m.to,
        spec_piece_at(b, m.from as u64) == Some((side, Piece::King)),
        opponent == side.spec_flip(),
        !bit_at(side_bits(b, side), m.to as u64),
        st_bit(s1, king_side_bit(side)) == st_bit(old_state, king_side_bit(side)),
        st_bit(s1, queen_side_bit(side)) == st_bit(old_state, queen_side_bit(side)),
        ((sq_bb(m.to as u64) & side_bits(b, opponent)) == 0 && m.from as u64 == king_home(side)
            && m.to as u64 == (king_home(side) + 2) as u64) ==> (spec_piece_at(
            b,
            crate::game::ks_rook_home(side),
        ) == Some((side, Piece::Rook)) && square_empty(b, (king_home(side) + 1) as u64)),
        ((sq_bb(m.to as u64) & side_bits(b, opponent)) == 0 && m.from as u64 == king_home(side)
            && m.to as u64 == (king_home(side) - 2) as u64) ==> (spec_piece_at(
            b,
            crate::game::qs_rook_home(side),
        ) == Some((side, Piece::Rook)) && square_empty(b, (king_home(side) - 1) as u64)),
        crate::game::spec_king_step(b, s1, z1, halfmove0, side, opponent, old_state, m) is Ok,
    ensures
        (crate::game::spec_king_step(b, s1, z1, halfmove0, side, opponent, old_state, m)
            matches Ok(t) && t.2 == board_hash(t.0) ^ state_hash(t.1) && board_wf(t.0)),
{
    let from = m.from as u64;
    let to = m.to as u64;
    let had_ks = st_bit(old_state, king_side_bit(side));
    let had_qs = st_bit(old_state, queen_side_bit(side));
    let s2 = if had_ks {
        st_with_bit(s1, king_side_bit(side), false)
    } else {
        s1
    };
    let z2 = if had_ks {
        z1 ^ key_at(king_castling_key_index(side))
    } else {
        z1
    };
    if had_ks {
        lemma_consist_flag(b, s1, z1, king_side_bit(side), false);
    }
    let s3 = if had_qs {
        st_with_bit(s2, queen_side_bit(side), false)
    } else {
        s2
    };
    let z3 = if had_qs {
        z2 ^ key_at(queen_castling_key_index(side))
    } else {
        z2
    };
    if had_qs {
        lemma_consist_flag(b, s2, z2, queen_side_bit(side), false);
    }
    assert(z3 == board_hash(b) ^ state_hash(s3));
    crate::bitboard::lemma_bit_mask_test(side_bits(b, opponent), to);
    assert(square_wf(b, to));
    if (sq_bb(to) & side_bits(b, opponent)) != 0 {
        let cp = spec_piece_at(b, to)->Some_0.1;
        assert(spec_piece_at(b, to) == Some((opponent, cp)));
        lemma_consist_clear(b, s3, z3, to, opponent, cp);
        let b1 = spec_clear_piece(b, to);
        lemma_wf_clear(b, to);
        assert(square_empty(b1, to));
        let z4 = z3 ^ key_at(piece_key_index(opponent, cp, to as int));
        lemma_consist_clear(b1, s3, z4, from, side, Piece::King);
        let b2 = spec_clear_piece(b1, from);
        lemma_wf_clear(b1, from);
        assert(square_empty(b2, to));
        let z5 = z4 ^ key_at(piece_key_index(side, Piece::King, from as int));
        lemma_consist_set(b2, s3, z5, to, side, Piece::King);
        lemma_wf_set(b2, side, Piece::King, to);
    } else {
        assert(square_empty(b, to));
        if from == king_home(side) && to == king_home(side) + 2 {
            let rook_from = crate::game::ks_rook_home(side);
            let rook_to = (king_home(side) + 1) as u64;
            lemma_consist_clear(b, s3, z3, rook_from, side, Piece::Rook);
            let bc1 = spec_clear_piece(b, rook_from);
            lemma_wf_clear(b, rook_from);
            assert(square_empty(bc1, rook_to));
            let zc1 = z3 ^ key_at(piece_key_index(side, Piece::Rook, rook_from as int));
            lemma_consist_set(bc1, s3, zc1, rook_to, side, Piece::Rook);
            let bc2 = spec_set_piece(bc1, side, Piece::Rook, rook_to);
            lemma_wf_set(bc1, side, Piece::Rook, rook_to);
            let zc2 = zc1 ^ key_at(piece_key_index(side, Piece::Rook, rook_to as int));
            assert(spec_piece_at(bc2, from as u64) == spec_piece_at(b, from as u64));
            lemma_consist_clear(bc2, s3, zc2, from, side, Piece::King);
            let bc3 = spec_clear_piece(bc2, from);
            lemma_wf_clear(bc2, from);
            assert(square_empty(bc3, to));
            let zc3 = zc2 ^ key_at(piece_key_index(side, Piece::King, from as int));
            lemma_consist_set(bc3, s3, zc3, to, side, Piece::King);
            lemma_wf_set(bc3, side, Piece::King, to);
        } else if from == king_home(side) && to == (king_home(side) - 2) as u64 {
            let rook_from = crate::game::qs_rook_home(side);
            let rook_to = (king_home(side) - 1) as u64;
            lemma_consist_clear(b, s3, z3, rook_from, side, Piece::Rook);
            let bc1 = spec_clear_piece(b, rook_from);
            lemma_wf_clear(b, rook_from);
            assert(square_empty(bc1, rook_to));
            let zc1 = z3 ^ key_at(piece_key_index(side, Piece::Rook, rook_from as int));
            lemma_consist_set(bc1, s3, zc1, rook_to, side, Piece::Rook);
            let bc2 = spec_set_piece(bc1, side, Piece::Rook, rook_to);
            lemma_wf_set(bc1, side, Piece::Rook, rook_to);
            let zc2 = zc1 ^ key_at(piece_key_index(side, Piece::Rook, rook_to as int));
            assert(spec_piece_at(bc2, from as u64) == spec_piece_at(b, from as u64));
            lemma_consist_clear(bc2, s3, zc2, from, side, Piece::King);
            let bc3 = spec_clear_piece(bc2, from);
            lemma_wf_clear(bc2, from);
            assert(square_empty(bc3, to));
            let zc3 = zc2 ^ key_at(piece_key_index(side, Piece::King, from as int));
            lemma_consist_set(bc3, s3, zc3, to, side, Piece::King);
            lemma_wf_set(bc3, side, Piece::King, to);
        } else {
            lemma_consist_clear(b, s3, z3, from, side, Piece::King);
            let b1 = spec_clear_piece(b, from);
            lemma_wf_clear(b, from);
            assert(square_empty(b1, to));
            let z4 = z3 ^ key_at(piece_key_index(side, Piece::King, from as int));
            lemma_consist_set(b1, s3, z4, to, side, Piece::King);
            lemma_wf_set(b1, side, Piece::King, to);
        }
    }
}


/// The white pawn target geometry: push targets keep the file and
/// land on empty squares; attack targets step one file aside and hit
/// the en-passant band or a black piece.
proof fn lemma_pawn_white_geom(w: u64, blk: u64, pas: u64, f: u64, t: u64)
    by (bit_vector)
    ensures
        f < 64 && t < 64 ==> (bit_at(
            (north1(w & sq_bb(f)) & !(blk | w)) | (north1(north1(w & sq_bb(f)) & !(blk | w))
                & 0x0000_0000_ff00_0000u64 & !(blk | w)),
            t,
        ) ==> (!bit_at(blk | w, t) && t % 8 == f % 8 && (t == f + 8 || t == f + 16))),
        f < 64 && t < 64 ==> (bit_at(
            (north_east1(w & sq_bb(f)) | north_west1(w & sq_bb(f))) & (pas | blk),
            t,
        ) ==> ((t == f + 7 || t == f + 9) && t / 8 == f / 8 + 1 && t % 8 != f % 8 && (bit_at(
            pas,
            t,
        ) || bit_at(blk, t)))),
{
}

/// The black pawn target geometry, mirrored southward.
proof fn lemma_pawn_black_geom(w: u64, blk: u64, pas: u64, f: u64, t: u64)
    by (bit_vector)
    ensures
        f < 64 && t < 64 ==> (bit_at(
            (south1(blk & sq_bb(f)) & !(blk | w)) | (south1(south1(blk & sq_bb(f)) & !(blk | w))
                & 0x0000_00ff_0000_0000u64 & !(blk | w)),
            t,
        ) ==> (!bit_at(blk | w, t) && t % 8 == f % 8 && (f == t + 8 || f == t + 16))),
        f < 64 && t < 64 ==> (bit_at(
            (south_east1(blk & sq_bb(f)) | south_west1(blk & sq_bb(f))) & (pas | w),
            t,
        ) ==> ((f == t + 7 || f == t + 9) && f / 8 == t / 8 + 1 && t % 8 != f % 8 && (bit_at(
            pas,
            t,
        ) || bit_at(w, t)))),
{
}

/// The en-passant bands: white captures into the sixth rank, black
/// into the third, and only on an open file.
proof fn lemma_ep_band(ep_files: u64, t: u64)
    by (bit_vector)
    ensures
        bit_at(0x0000_ff00_0000_0000u64 & ep_files, t) ==> (40 <= t < 48 && bit_at(ep_files, t)),
        bit_at(0x0000_0000_00ff_0000u64 & ep_files, t) ==> (16 <= t < 24 && bit_at(ep_files, t)),
{
}

/// A whole-file mask holds exactly the squares of its file.
proof fn lemma_file_bb_bits(j: u64, t: u64)
    by (bit_vector)
    ensures
        j < 8 && t < 64 ==> bit_at(file_bb(j), t) == (t % 8 == j),
{
}

/// A square in the union of whole files lies on one of the named
/// files.
proof fn lemma_files_bb_member(files: Seq<crate::file::File>, t: u64)
    requires
        t < 64,
        bit_at(crate::board::files_bb(files), t),
    ensures
        exists|k: int| 0 <= k < files.len() && (#[trigger] files[k]).spec_index() == t % 8,
    decreases files.len(),
{
    crate::bitboard::lemma_bit_empty(t);
    let rest = files.drop_last();
    if bit_at(crate::board::files_bb(rest), t) {
        lemma_files_bb_member(rest, t);
        let k = choose|k: int| 0 <= k < rest.len() && (#[trigger] rest[k]).spec_index() == t % 8;
        assert(files[k].spec_index() == t % 8);
    } else {
        lemma_file_bb_bits(files.last().spec_index() as u64, t);
        assert(files[files.len() - 1].spec_index() == t % 8);
    }
}

/// Every file in the open-files list has its flag bit set.
proof fn lemma_open_files_bits(s: u16, n: int)
    requires
        0 <= n <= 8,
    ensures
        forall|k: int|
            0 <= k < crate::state::spec_open_files(s, n).len() ==> st_bit(
                s,
                (#[trigger] crate::state::spec_open_files(s, n)[k]).spec_index() as u16,
            ),
    decreases n,
{
    if n > 0 {
        lemma_open_files_bits(s, n - 1);
        let files = crate::state::spec_open_files(s, n);
        let rest = crate::state::spec_open_files(s, n - 1);
        assert forall|k: int| 0 <= k < files.len() implies st_bit(
            s,
            (#[trigger] files[k]).spec_index() as u16,
        ) by {
            if st_bit(s, (n - 1) as u16) {
                if k < rest.len() {
                    assert(files[k] == rest[k]);
                } else {
                    assert(files[k] == crate::state::spec_file_of(n - 1));
                }
            } else {
                assert(files[k] == rest[k]);
            }
        }
    }
}

/// Every open en-passant file is backed by the pawn that just
/// double-pushed past it: with white to move a black pawn stands
/// behind the sixth-rank target, with black to move a white pawn
/// behind the third-rank target.
pub open spec fn ep_consistent(g: GameModel) -> bool {
    forall|f: u16|
        f < 8 && #[trigger] st_bit(g.state, f) ==> (if spec_turn(g.state) == Side::White {
            spec_piece_at(g.board, (32 + f) as u64) == Some((Side::Black, Piece::Pawn))
        } else {
            spec_piece_at(g.board, (24 + f) as u64) == Some((Side::White, Piece::Pawn))
        })
}

/// Every held castling right is backed by the rook on its home
/// square.
pub open spec fn rights_consistent(g: GameModel) -> bool {
    &&& st_bit(g.state, king_side_bit(Side::White)) ==> spec_piece_at(g.board, 7) == Some(
        (Side::White, Piece::Rook),
    )
    &&& st_bit(g.state, queen_side_bit(Side::White)) ==> spec_piece_at(g.board, 0) == Some(
        (Side::White, Piece::Rook),
    )
    &&& st_bit(g.state, king_side_bit(Side::Black)) ==> spec_piece_at(g.board, 63) == Some(
        (Side::Black, Piece::Rook),
    )
    &&& st_bit(g.state, queen_side_bit(Side::Black)) ==> spec_piece_at(g.board, 56) == Some(
        (Side::Black, Piece::Rook),
    )
}

/// The pawn dispatch case keeps the hash consistent.
#[verifier::rlimit(100)]
proof fn lemma_consist_pawn_step(
    b: BoardModel,
    s1: u16,
    z1: u32,
    side: Side,
    opponent: Side,
    m: MovModel,
)
    requires
        z1 == board_hash(b) ^ state_hash(s1),
        board_wf(b),
        m.from < 64,
        m.to < 64,
        m.from != m.to,
        spec_piece_at(b, m.from as u64) == Some((side, Piece::Pawn)),
        opponent == side.spec_flip(),
        forall|fb: u16| fb < 8 ==> !(#[trigger] st_bit(s1, fb)),
        ((m.from / 8 == 1 && m.to / 8 == 3) || (m.from / 8 == 6 && m.to / 8 == 4))
            ==> square_empty(b, m.to as u64),
        (!((m.from / 8 == 1 && m.to / 8 == 3) || (m.from / 8 == 6 && m.to / 8 == 4)) && m.from % 8
            == m.to % 8) ==> square_empty(b, m.to as u64),
        (!((m.from / 8 == 1 && m.to / 8 == 3) || (m.from / 8 == 6 && m.to / 8 == 4)) && m.from % 8
            != m.to % 8 && (sq_bb(m.to as u64) & side_bits(b, opponent)) == 0 && side
            == Side::White && m.to >= 8) ==> (spec_piece_at(b, (m.to - 8) as u64) == Some(
            (opponent, Piece::Pawn),
        ) && square_empty(b, m.to as u64)),
        (!((m.from / 8 == 1 && m.to / 8 == 3) || (m.from / 8 == 6 && m.to / 8 == 4)) && m.from % 8
            != m.to % 8 && (sq_bb(m.to as u64) & side_bits(b, opponent)) == 0 && side
            == Side::Black && m.to < 56) ==> (spec_piece_at(b, (m.to + 8) as u64) == Some(
            (opponent, Piece::Pawn),
        ) && square_empty(b, m.to as u64)),
        crate::game::spec_pawn_step(b, s1, z1, 0u32, side, opponent, m) is Ok,
    ensures
        (crate::game::spec_pawn_step(b, s1, z1, 0u32, side, opponent, m) matches Ok(t) && t.2
            == board_hash(t.0) ^ state_hash(t.1) && board_wf(t.0)),
{
    let from = m.from as u64;
    let to = m.to as u64;
    let rank_from = from / 8;
    let rank_to = to / 8;
    if (rank_from == 1 && rank_to == 3) || (rank_from == 6 && rank_to == 4) {
        let file = (to % 8) as u16;
        lemma_consist_flag(b, s1, z1, file, true);
        let s2 = st_with_bit(s1, file, true);
        let z2 = z1 ^ key_at(flag_key_index(file as int));
        assert(en_passant_key_index((to % 8) as int) == flag_key_index(file as int));
        lemma_consist_clear(b, s2, z2, from, side, Piece::Pawn);
        let b1 = spec_clear_piece(b, from);
        lemma_wf_clear(b, from);
        assert(square_empty(b1, to));
        let z3 = z2 ^ key_at(piece_key_index(side, Piece::Pawn, from as int));
        lemma_consist_set(b1, s2, z3, to, side, Piece::Pawn);
        lemma_wf_set(b1, side, Piece::Pawn, to);
    } else {
        if from % 8 != to % 8 {
            let en_passant = (sq_bb(to) & side_bits(b, opponent)) == 0;
            if en_passant {
                let captured_square = if side == Side::White {
                    (to - 8) as u64
                } else {
                    (to + 8) as u64
                };
                assert(spec_piece_at(b, captured_square) == Some((opponent, Piece::Pawn)));
                lemma_consist_clear(b, s1, z1, captured_square, opponent, Piece::Pawn);
                let b1 = spec_clear_piece(b, captured_square);
                lemma_wf_clear(b, captured_square);
                assert(spec_piece_at(b1, from) == spec_piece_at(b, from));
                assert(square_empty(b1, to));
                let z2 = z1 ^ key_at(piece_key_index(opponent, Piece::Pawn, captured_square as int));
                lemma_consist_pawn_place(b1, s1, z2, side, m);
            } else {
                crate::bitboard::lemma_bit_mask_test(side_bits(b, opponent), to);
                assert(square_wf(b, to));
                let cp = spec_piece_at(b, to)->Some_0.1;
                assert(spec_piece_at(b, to) == Some((opponent, cp)));
                lemma_consist_clear(b, s1, z1, to, opponent, cp);
                let b1 = spec_clear_piece(b, to);
                lemma_wf_clear(b, to);
                assert(spec_piece_at(b1, from) == spec_piece_at(b, from));
                assert(square_empty(b1, to));
                let z2 = z1 ^ key_at(piece_key_index(opponent, cp, to as int));
                lemma_consist_pawn_place(b1, s1, z2, side, m);
            }
        } else {
            lemma_consist_pawn_place(b, s1, z1, side, m);
        }
    }
}

/// Placing the pawn or its promotion piece keeps the hash consistent.
#[verifier::rlimit(100)]
proof fn lemma_consist_pawn_place(b: BoardModel, s1: u16, z1: u32, side: Side, m: MovModel)
    requires
        z1 == board_hash(b) ^ state_hash(s1),
        m.from < 64,
        m.to < 64,
        m.from != m.to,
        spec_piece_at(b, m.from as u64) == Some((side, Piece::Pawn)),
        square_empty(b, m.to as u64),
        board_wf(b),
    ensures
        (crate::game::spec_pawn_place(b, s1, z1, side, m) matches Ok(t) ==> t.2 == board_hash(t.0)
            ^ state_hash(t.1) && board_wf(t.0)),
{
    let from = m.from as u64;
    let to = m.to as u64;
    let rank_to = to / 8;
    if rank_to == 7 || rank_to == 0 {
        match m.promotion {
            None => (),
            Some(Piece::Pawn) => (),
            Some(Piece::King) => (),
            Some(new_piece) => {
                lemma_consist_clear(b, s1, z1, from, side, Piece::Pawn);
                let b1 = spec_clear_piece(b, from);
                lemma_wf_clear(b, from);
                assert(square_empty(b1, to));
                let z2 = z1 ^ key_at(piece_key_index(side, Piece::Pawn, from as int));
                lemma_consist_set(b1, s1, z2, to, side, new_piece);
                lemma_wf_set(b1, side, new_piece, to);
            },
        }
    } else {
        lemma_consist_clear(b, s1, z1, from, side, Piece::Pawn);
        let b1 = spec_clear_piece(b, from);
        lemma_wf_clear(b, from);
        assert(square_empty(b1, to));
        let z2 = z1 ^ key_at(piece_key_index(side, Piece::Pawn, from as int));
        lemma_consist_set(b1, s1, z2, to, side, Piece::Pawn);
        lemma_wf_set(b1, side, Piece::Pawn, to);
    }
}


/// Hash consistency over one move: starting from a well-formed
/// position whose hash equals the from-scratch hash of its features,
/// the incrementally updated hash of any accepted move again equals
/// the from-scratch hash of the new position.  Together with the
/// constructor, which computes the hash from scratch, every two move
/// sequences reaching the same placements, rights, en-passant state
/// and turn carry the same hash.
#[verifier::rlimit(100)]
pub proof fn lemma_hash_consistency(g: GameModel, m: MovModel, g2: GameModel)
    requires
        spec_make_move(g, m) == Ok::<GameModel, Error>(g2),
        board_wf(g.board),
        ep_consistent(g),
        rights_consistent(g),
        g.zobrist == position_hash(g.board, g.state),
    ensures
        g2.zobrist == position_hash(g2.board, g2.state),
        board_wf(g2.board),
{
    reveal(spec_make_pseudo);
    reveal(spec_game_pseudo_targets);
    let b = g.board;
    let s0 = g.state;
    let side = spec_turn(s0);
    let opponent = side.spec_flip();
    let from = m.from as u64;
    let to = m.to as u64;
    let targets = spec_game_pseudo_targets(g, from);
    crate::bitboard::lemma_bit_oob(targets, to);
    let piece = spec_piece_at(b, from)->Some_0.1;
    crate::bitboard::lemma_bit_oob(side_bits(b, side), from);
    assert(!bit_at(side_bits(b, side), to));
    lemma_consist_prelude(b, s0, g.zobrist, side);
    let s1 = st_with_bit((s0 & 0xff00) as u16, 12, opponent == Side::White);
    let z1 = crate::game::flip_file_keys(g.zobrist, crate::state::spec_open_files(s0, 8))
        ^ key_at(780);
    let halfmove0 = crate::game::sat_inc(g.halfmove_clock);
    match piece {
        Piece::Pawn => {
            lemma_geometry_pawn(g, m);
            lemma_consist_pawn_step(b, s1, z1, side, opponent, m);
        },
        Piece::King => {
            lemma_geometry_king(g, m);
            lemma_consist_king_step(b, s1, z1, halfmove0, side, opponent, s0, m);
        },
        Piece::Rook => {
            lemma_consist_rook_step(b, s1, z1, halfmove0, side, opponent, s0, m);
        },
        _ => {
            lemma_consist_simple_step(b, s1, z1, halfmove0, side, opponent, piece, m);
        },
    }
    let step = match piece {
        Piece::Pawn => crate::game::spec_pawn_step(b, s1, z1, halfmove0, side, opponent, m),
        Piece::King => crate::game::spec_king_step(b, s1, z1, halfmove0, side, opponent, s0, m),
        Piece::Rook => crate::game::spec_rook_step(b, s1, z1, halfmove0, side, opponent, s0, m),
        _ => crate::game::spec_simple_step(b, s1, z1, halfmove0, side, opponent, piece, m),
    };
    let (b2, s2, z2, h2, captured) = step->Ok_0;
    assert(z2 == board_hash(b2) ^ state_hash(s2));
    let hit_qs = captured && to == crate::game::qs_rook_home(opponent) && st_bit(
        s2,
        queen_side_bit(opponent),
    );
    let hit_ks = !hit_qs && captured && to == crate::game::ks_rook_home(opponent) && st_bit(
        s2,
        king_side_bit(opponent),
    );
    if hit_qs {
        lemma_consist_flag(b2, s2, z2, queen_side_bit(opponent), false);
    } else if hit_ks {
        lemma_consist_flag(b2, s2, z2, king_side_bit(opponent), false);
    }
}

/// Derives the pawn-case square facts from pseudo-legal membership,
/// the board invariant and the en-passant invariant.
#[verifier::rlimit(100)]
proof fn lemma_geometry_pawn(g: GameModel, m: MovModel)
    requires
        board_wf(g.board),
        ep_consistent(g),
        bit_at(spec_game_pseudo_targets(g, m.from as u64), m.to as u64),
        m.from < 64,
        m.to < 64,
        spec_piece_at(g.board, m.from as u64) == Some((spec_turn(g.state), Piece::Pawn)),
    ensures
        ((m.from / 8 == 1 && m.to / 8 == 3) || (m.from / 8 == 6 && m.to / 8 == 4))
            ==> square_empty(g.board, m.to as u64),
        (((m.from / 8 == 1 && m.to / 8 == 3) || (m.from / 8 == 6 && m.to / 8 == 4)) && spec_turn(
            g.state,
        ) == Side::White) ==> (m.from / 8 == 1 && m.to / 8 == 3),
        (((m.from / 8 == 1 && m.to / 8 == 3) || (m.from / 8 == 6 && m.to / 8 == 4)) && spec_turn(
            g.state,
        ) == Side::Black) ==> (m.from / 8 == 6 && m.to / 8 == 4),
        (!((m.from / 8 == 1 && m.to / 8 == 3) || (m.from / 8 == 6 && m.to / 8 == 4)) && m.from % 8
            == m.to % 8) ==> square_empty(g.board, m.to as u64),
        (!((m.from / 8 == 1 && m.to / 8 == 3) || (m.from / 8 == 6 && m.to / 8 == 4)) && m.from % 8
            != m.to % 8 && (sq_bb(m.to as u64) & side_bits(g.board, spec_turn(g.state).spec_flip()))
            == 0 && spec_turn(g.state) == Side::White) ==> (m.to / 8 == 5 && spec_piece_at(
            g.board,
            (m.to - 8) as u64,
        ) == Some((spec_turn(g.state).spec_flip(), Piece::Pawn)) && square_empty(
            g.board,
            m.to as u64,
        )),
        (!((m.from / 8 == 1 && m.to / 8 == 3) || (m.from / 8 == 6 && m.to / 8 == 4)) && m.from % 8
            != m.to % 8 && (sq_bb(m.to as u64) & side_bits(g.board, spec_turn(g.state).spec_flip()))
            == 0 && spec_turn(g.state) == Side::Black) ==> (m.to / 8 == 2 && spec_piece_at(
            g.board,
            (m.to + 8) as u64,
        ) == Some((spec_turn(g.state).spec_flip(), Piece::Pawn)) && square_empty(
            g.board,
            m.to as u64,
        )),
{
    reveal(spec_game_pseudo_targets);
    let b = g.board;
    let s0 = g.state;
    let side = spec_turn(s0);
    let from = m.from as u64;
    let to = m.to as u64;
    let files = crate::state::spec_open_files(s0, 8);
    let files_mask = crate::board::files_bb(files);
    assert(square_wf(b, to));
    lemma_open_files_bits(s0, 8);
    match side {
        Side::White => {
            let pas = 0x0000_ff00_0000_0000u64 & files_mask;
            lemma_pawn_white_geom(b.white, b.black, pas, from, to);
            crate::bitboard::lemma_bit_mask_test(b.black, to);
            crate::bitboard::lemma_bit_mask_test(side_bits(b, Side::Black), to);
            if bit_at(pas, to) {
                lemma_ep_band(files_mask, to);
                lemma_files_bb_member(files, to);
                let k = choose|k: int|
                    0 <= k < files.len() && (#[trigger] files[k]).spec_index() == to % 8;
                assert(st_bit(s0, (to % 8) as u16));
                assert((32 + (to % 8) as u16) as u64 == (to - 8) as u64);
            }
        },
        Side::Black => {
            let pas = 0x0000_0000_00ff_0000u64 & files_mask;
            lemma_pawn_black_geom(b.white, b.black, pas, from, to);
            crate::bitboard::lemma_bit_mask_test(b.white, to);
            crate::bitboard::lemma_bit_mask_test(side_bits(b, Side::White), to);
            if bit_at(pas, to) {
                lemma_ep_band(files_mask, to);
                lemma_files_bb_member(files, to);
                let k = choose|k: int|
                    0 <= k < files.len() && (#[trigger] files[k]).spec_index() == to % 8;
                assert(st_bit(s0, (to % 8) as u16));
                assert((24 + (to % 8) as u16) as u64 == (to + 8) as u64);
            }
        },
    }
}

/// Derives the castling square facts from pseudo-legal membership,
/// the board invariant and the rights invariant.
#[verifier::rlimit(100)]
proof fn lemma_geometry_king(g: GameModel, m: MovModel)
    requires
        board_wf(g.board),
        rights_consistent(g),
        bit_at(spec_game_pseudo_targets(g, m.from as u64), m.to as u64),
        m.from < 64,
        m.to < 64,
        spec_piece_at(g.board, m.from as u64) == Some((spec_turn(g.state), Piece::King)),
    ensures
        ((sq_bb(m.to as u64) & side_bits(g.board, spec_turn(g.state).spec_flip())) == 0 && m.from
            as u64 == king_home(spec_turn(g.state)) && m.to as u64 == (king_home(spec_turn(g.state))
            + 2) as u64) ==> (spec_piece_at(g.board, crate::game::ks_rook_home(spec_turn(g.state)))
            == Some((spec_turn(g.state), Piece::Rook)) && square_empty(
            g.board,
            (king_home(spec_turn(g.state)) + 1) as u64,
        )),
        ((sq_bb(m.to as u64) & side_bits(g.board, spec_turn(g.state).spec_flip())) == 0 && m.from
            as u64 == king_home(spec_turn(g.state)) && m.to as u64 == (king_home(spec_turn(g.state))
            - 2) as u64) ==> (spec_piece_at(g.board, crate::game::qs_rook_home(spec_turn(g.state)))
            == Some((spec_turn(g.state), Piece::Rook)) && square_empty(
            g.board,
            (king_home(spec_turn(g.state)) - 1) as u64,
        )),
{
    reveal(spec_game_pseudo_targets);
    let b = g.board;
    let side = spec_turn(g.state);
    let to = m.to as u64;
    lemma_castle_const_bits();
    lemma_castle_chains(occ_bb(b));
    crate::bitboard::lemma_bit_empty(to);
    match side {
        Side::White => {
            assert(square_wf(b, 5));
            assert(square_wf(b, 3));
        },
        Side::Black => {
            assert(square_wf(b, 61));
            assert(square_wf(b, 59));
        },
    }
}


/// Clearing a square keeps the board well formed.
proof fn lemma_wf_clear(b: BoardModel, i: u64)
    requires
        board_wf(b),
        i < 64,
    ensures
        board_wf(spec_clear_piece(b, i)),
{
    let b2 = spec_clear_piece(b, i);
    assert forall|j: u64| j < 64 implies square_wf(b2, j) by {
        assert(square_wf(b, j));
    }
}

/// Placing a piece on a fully empty square keeps the board well
/// formed.
proof fn lemma_wf_set(b: BoardModel, side: Side, piece: Piece, i: u64)
    requires
        board_wf(b),
        i < 64,
        square_empty(b, i),
    ensures
        board_wf(spec_set_piece(b, side, piece, i)),
{
    let b2 = spec_set_piece(b, side, piece, i);
    assert forall|j: u64| j < 64 implies square_wf(b2, j) by {
        assert(square_wf(b, j));
    }
}

/// The position parser only ever fills fresh squares, so starting
/// from a well-formed board whose unread region is empty it returns a
/// well-formed board.
#[verifier::rlimit(100)]
proof fn lemma_parse_position_wf(s: Seq<char>, j: int, rank: int, file: int, b: BoardModel)
    requires
        0 <= rank <= 7,
        0 <= file <= 8,
        board_wf(b),
        forall|i: u64|
            i < 64 && (((i / 8) as int) < rank || (((i / 8) as int) == rank && ((i % 8) as int)
                >= file)) ==> #[trigger] square_empty(b, i),
    ensures
        (crate::fen::parse_position(s, j, rank, file, b) matches Ok(parts) ==> board_wf(parts.0)),
    decreases s.len() - j,
{
    if j < 0 || j >= s.len() {
    } else {
        let c = s[j];
        if c == ' ' {
        } else if c == '/' {
            if file == 8 && rank > 0 {
                lemma_parse_position_wf(s, j + 1, rank - 1, 0, b);
            }
        } else if crate::fen::is_digit(c) {
            if file + crate::fen::digit_of(c) <= 8 {
                lemma_parse_position_wf(s, j + 1, rank, file + crate::fen::digit_of(c), b);
            }
        } else {
            match Piece::spec_from_char(c) {
                Err(_) => (),
                Ok(piece) => {
                    if file < 8 {
                        let side = if crate::fen::is_upper(c) {
                            Side::White
                        } else {
                            Side::Black
                        };
                        let idx = (8 * rank + file) as u64;
                        assert(square_empty(b, idx));
                        lemma_wf_set(b, side, piece, idx);
                        let b2 = spec_set_piece(b, side, piece, idx);
                        assert forall|i: u64|
                            i < 64 && (((i / 8) as int) < rank || (((i / 8) as int) == rank && ((i
                                % 8) as int) >= file + 1)) implies #[trigger] square_empty(
                            b2,
                            i,
                        ) by {
                            assert(square_empty(b, i));
                        }
                        lemma_parse_position_wf(s, j + 1, rank, file + 1, b2);
                    }
                },
            }
        }
    }
}

/// Every position built by the FEN parser is well formed: the sides
/// are disjoint and the kind sets cover exactly the occupied squares.
pub proof fn lemma_parsed_board_wf(s: Seq<char>, parts: (BoardModel, u16, u32, u32))
    requires
        crate::fen::spec_parse_fen_from(s, crate::fen::empty_board_model(), 0) == Ok::<
            (BoardModel, u16, u32, u32),
            Error,
        >(parts),
    ensures
        board_wf(parts.0),
{
    let b0 = crate::fen::empty_board_model();
    assert forall|i: u64| i < 64 implies #[trigger] square_empty(b0, i) by {
        crate::bitboard::lemma_bit_empty(i);
    }
    assert forall|i: u64| i < 64 implies square_wf(b0, i) by {
        assert(square_empty(b0, i));
    }
    lemma_parse_position_wf(s, 0, 7, 0, b0);
}


} // verus!
