use dot_chess::board::Board;
use dot_chess::event::Event;
use dot_chess::file::File;
use dot_chess::piece::Piece;
use dot_chess::rank::Rank;
use dot_chess::side::Side;
use dot_chess::square::Square;
use dot_chess::state::State;
use dot_chess::zobrist::{is_repetition, max_repetition, ZobristHash};

#[test]
fn white_pawn_a1_hash_key_index() {
    let index = ZobristHash::get_piece_hash_key_index(
        Side::White,
        Piece::Pawn,
        Square::new(File::A, Rank::_1),
    );
    assert_eq!(index, 0);
}

#[test]
fn white_king_h8_hash_key_index() {
    let index = ZobristHash::get_piece_hash_key_index(
        Side::White,
        Piece::King,
        Square::new(File::H, Rank::_8),
    );
    assert_eq!(index, 383);
}

#[test]
fn black_pawn_a1_hash_key_index() {
    let index = ZobristHash::get_piece_hash_key_index(
        Side::Black,
        Piece::Pawn,
        Square::new(File::A, Rank::_1),
    );
    assert_eq!(index, 384);
}

#[test]
fn black_king_h8_hash_key_index() {
    let index = ZobristHash::get_piece_hash_key_index(
        Side::Black,
        Piece::King,
        Square::new(File::H, Rank::_8),
    );
    assert_eq!(index, 767);
}

#[test]
fn en_passant_file_a_hash_key_index() {
    assert_eq!(ZobristHash::get_en_passant_hash_key_index(File::A), 768);
}

#[test]
fn en_passant_file_h_hash_key_index() {
    assert_eq!(ZobristHash::get_en_passant_hash_key_index(File::H), 775);
}

#[test]
fn white_queen_castling_right_hash_key_index() {
    assert_eq!(
        ZobristHash::get_queen_castling_right_hash_key_index(Side::White),
        776
    );
}

#[test]
fn black_queen_castling_right_hash_key_index() {
    assert_eq!(
        ZobristHash::get_queen_castling_right_hash_key_index(Side::Black),
        777
    );
}

#[test]
fn white_king_castling_right_hash_key_index() {
    assert_eq!(
        ZobristHash::get_king_castling_right_hash_key_index(Side::White),
        778
    );
}

#[test]
fn black_king_castling_right_hash_key_index() {
    assert_eq!(
        ZobristHash::get_king_castling_right_hash_key_index(Side::Black),
        779
    );
}

#[test]
fn whites_turn_hash_key_index() {
    assert_eq!(ZobristHash::WHITE_TURN_HASH_KEY_INDEX, 780);
}

#[test]
fn hash_tracks_every_position_feature() {
    let board = Board::default();
    let mut state = State::zero();
    state.set_next_turn_side(Side::White);
    let base = ZobristHash::new(&board, &state);

    // Flipping any one feature moves the hash; flipping it back restores it.
    let mut changed = base;
    changed.flip_piece_position(Side::White, Piece::Pawn, Square::from_index(12));
    assert_ne!(changed, base);
    changed.flip_piece_position(Side::White, Piece::Pawn, Square::from_index(12));
    assert_eq!(changed, base);

    let mut turned = base;
    turned.flip_next_turn();
    assert_ne!(turned, base);

    let mut rights = base;
    rights.flip_king_castling_right(Side::White);
    assert_ne!(rights, base);

    let mut ep = base;
    ep.flip_en_passant_file(File::E);
    assert_ne!(ep, base);
}

#[test]
fn repetition_counts_hash_multiplicity() {
    let board = Board::default();
    let state = State::zero();
    let a = ZobristHash::new(&board, &state);
    let mut other_state = State::zero();
    other_state.set_next_turn_side(Side::White);
    let b = ZobristHash::new(&board, &other_state);

    let history = vec![a, b, a, b, a];
    assert_eq!(max_repetition(&history), 3);
    assert!(is_repetition(&history));

    let short = vec![a, b, a, b];
    assert_eq!(max_repetition(&short), 2);
    assert!(!is_repetition(&short));
}

#[test]
fn applying_an_event_list_folds_each_feature_once() {
    let board = Board::default();
    let state = State::zero();
    let base = ZobristHash::new(&board, &state);
    let events = vec![
        Event::PieceLeftSquare(Side::White, Piece::Pawn, Square::from_index(12)),
        Event::PieceEnteredSquare(Side::White, Piece::Pawn, Square::from_index(28)),
        Event::EnPassantOpened(File::E),
        Event::NextTurn(Side::White),
        Event::NextTurn(Side::Black),
        Event::KingCastlingRightLost(Side::White),
        Event::QueenCastlingRightLost(Side::Black),
    ];
    let applied = base.apply(&events);
    let mut manual = base;
    manual.flip_piece_position(Side::White, Piece::Pawn, Square::from_index(12));
    manual.flip_piece_position(Side::White, Piece::Pawn, Square::from_index(28));
    manual.flip_en_passant_file(File::E);
    manual.flip_next_turn();
    manual.flip_next_turn();
    manual.flip_king_castling_right(Side::White);
    manual.flip_queen_castling_right(Side::Black);
    assert_eq!(applied, manual);
    // A second application of the same list undoes the first.
    assert_eq!(applied.apply(&events), base);
    // A turn flip toward either side folds the side-to-move key.
    let flipped_to_black = base.apply(&vec![Event::NextTurn(Side::Black)]);
    assert_ne!(flipped_to_black, base);
    let mut manual_turn = base;
    manual_turn.flip_next_turn();
    assert_eq!(flipped_to_black, manual_turn);
}
