use dot_chess::board::Board;
use dot_chess::common::Error;
use dot_chess::game::Game;
use dot_chess::mov::Mov;
use dot_chess::piece::Piece;
use dot_chess::side::Side;
use dot_chess::square::Square;
use dot_chess::state::State;
use dot_chess::zobrist::is_repetition;

fn mv(game: &Game, text: &str) -> Game {
    game.make_move(&Mov::from_str(text).unwrap()).unwrap()
}

fn perft(game: &Game, depth: usize) -> u64 {
    let movs = game.legal_moves();
    if depth == 1 {
        return movs.len() as u64;
    }
    let mut nodes: u64 = 0;
    for mov in movs.iter() {
        let next = game.make_move(mov).unwrap();
        nodes += perft(&next, depth - 1);
    }
    nodes
}

#[test]
fn apply_fen_default() {
    let mut board = Board::empty();
    let mut state = State::zero();
    let mut halfmove_clock = 0;
    let mut fullmove_number = 0;
    Game::apply_fen(
        Game::fen_new_game(),
        &mut board,
        &mut state,
        &mut halfmove_clock,
        &mut fullmove_number,
    )
    .unwrap();
}

#[test]
fn print_fen() {
    let game = Game::new(Game::fen_new_game()).unwrap();
    assert_eq!(game.fen().unwrap(), Game::fen_new_game());
}

#[test]
fn make_pseudo_legal_move_pawn_c2_to_d2() {
    let mov = Mov::new(Square::from_index(10), Square::from_index(18), None);
    Game::new(Game::fen_new_game())
        .unwrap()
        .make_pseudo_legal_move(&mov)
        .unwrap();
}

#[test]
fn perft_depth_1_is_20() {
    let game = Game::new(Game::fen_new_game()).unwrap();
    assert_eq!(perft(&game, 1), 20);
}

#[test]
fn perft_depth_2_is_400() {
    let game = Game::new(Game::fen_new_game()).unwrap();
    assert_eq!(perft(&game, 2), 400);
}

#[test]
fn perft_depth_3_is_8902() {
    let game = Game::new(Game::fen_new_game()).unwrap();
    assert_eq!(perft(&game, 3), 8902);
}

#[test]
fn fools_mate_is_checkmate() {
    let game = Game::new(Game::fen_new_game()).unwrap();
    let game = mv(&game, "f2f3");
    let game = mv(&game, "e7e5");
    let game = mv(&game, "g2g4");
    let game = mv(&game, "d8h4");
    assert!(!game.has_legal_moves());
    assert!(game.is_check());
}

#[test]
fn stalemate_has_no_legal_moves_and_no_check() {
    // Black to move: the black king in the corner is stalemated.
    let game = Game::new("7k/5Q2/6K1/8/8/8/8/8 b - - 0 1").unwrap();
    assert!(!game.has_legal_moves());
    assert!(!game.is_check());
}

#[test]
fn round_trip_start_position() {
    let fen = "rnbqkbnr/pppppppp/8/8/8/8/PPPPPPPP/RNBQKBNR w KQkq - 0 1";
    let game = Game::new(fen).unwrap();
    assert_eq!(game.fen().unwrap(), fen);
}

#[test]
fn round_trip_after_double_push() {
    let game = Game::new(Game::fen_new_game()).unwrap();
    let game = mv(&game, "e2e4");
    assert_eq!(
        game.fen().unwrap(),
        "rnbqkbnr/pppppppp/8/8/4P3/8/PPPP1PPP/RNBQKBNR b KQkq e3 0 1"
    );
    let reparsed = Game::new(&game.fen().unwrap()).unwrap();
    assert_eq!(reparsed.fen().unwrap(), game.fen().unwrap());
}

#[test]
fn round_trip_large_counters() {
    let fen = "8/8/4k3/8/8/4K3/8/8 w - - 99 120";
    let game = Game::new(fen).unwrap();
    assert_eq!(game.fen().unwrap(), fen);
    assert_eq!(game.halfmove_clock(), 99);
    assert_eq!(game.fullmove_number(), 120);
}

#[test]
fn hash_equals_recomputed_hash_after_moves() {
    let game = Game::new(Game::fen_new_game()).unwrap();
    let game = mv(&game, "e2e4");
    let game = mv(&game, "c7c5");
    let game = mv(&game, "g1f3");
    // Rebuilding the position from its FEN recomputes the hash from
    // scratch; it must agree with the incrementally kept one.
    let rebuilt = Game::new(&game.fen().unwrap()).unwrap();
    assert_eq!(game.zobrist(), rebuilt.zobrist());
}

#[test]
fn hash_agrees_across_transpositions() {
    let game = Game::new(Game::fen_new_game()).unwrap();
    let a = mv(&mv(&mv(&mv(&game, "g1f3"), "g8f6"), "b1c3"), "b8c6");
    let b = mv(&mv(&mv(&mv(&game, "b1c3"), "b8c6"), "g1f3"), "g8f6");
    assert_eq!(a.zobrist(), b.zobrist());
    // Returning the knights restores the starting position's hash.
    let back = mv(&mv(&mv(&mv(&a, "f3g1"), "f6g8"), "c3b1"), "c6b8");
    assert_eq!(back.zobrist(), game.zobrist());
}

#[test]
fn fifty_move_rule_boundary() {
    let game = Game::new(Game::fen_new_game()).unwrap();
    let mut game = game;
    let shuffle = ["g1f3", "g8f6", "f3g1", "f6g8"];
    for round in 0..25 {
        let _ = round;
        for text in shuffle.iter() {
            game = mv(&game, text);
        }
    }
    assert!(game.halfmove_clock() >= 100);
}

#[test]
fn threefold_repetition_boundary() {
    let game = Game::new(Game::fen_new_game()).unwrap();
    let mut game = game;
    let mut history = vec![game.zobrist()];
    let shuffle = ["g1f3", "g8f6", "f3g1", "f6g8"];
    let mut repeated = false;
    'outer: for _round in 0..3 {
        for text in shuffle.iter() {
            game = mv(&game, text);
            if game.halfmove_clock() == 0 {
                history.clear();
            }
            history.push(game.zobrist());
            if is_repetition(&history) {
                repeated = true;
                break 'outer;
            }
        }
    }
    assert!(repeated);
}

#[test]
fn castling_works_when_preconditions_hold() {
    let game = Game::new("r3k2r/8/8/8/8/8/8/R3K2R w KQkq - 0 1").unwrap();
    let castled = mv(&game, "e1g1");
    assert_eq!(
        castled.fen().unwrap(),
        "r3k2r/8/8/8/8/8/8/R4RK1 b kq - 1 1"
    );
    let long = mv(&game, "e1c1");
    assert_eq!(long.fen().unwrap(), "r3k2r/8/8/8/8/8/8/2KR3R b kq - 1 1");
}

#[test]
fn castling_rejected_without_right() {
    let game = Game::new("r3k2r/8/8/8/8/8/8/R3K2R w kq - 0 1").unwrap();
    assert_eq!(
        game.make_move(&Mov::from_str("e1g1").unwrap()).unwrap_err(), Error::IllegalMove);
}

#[test]
fn castling_rejected_after_king_moved() {
    let game = Game::new("r3k2r/8/8/8/8/8/8/R3K2R w KQkq - 0 1").unwrap();
    let game = mv(&game, "e1e2");
    let game = mv(&game, "h8g8");
    let game = mv(&game, "e2e1");
    let game = mv(&game, "g8h8");
    // Both white rights were revoked when the king stepped away.
    assert_eq!(game.make_move(&Mov::from_str("e1g1").unwrap()).unwrap_err(), Error::IllegalMove);
}

#[test]
fn castling_rejected_after_rook_moved() {
    let game = Game::new("r3k2r/8/8/8/8/8/8/R3K2R w KQkq - 0 1").unwrap();
    let game = mv(&game, "h1g1");
    let game = mv(&game, "h8g8");
    let game = mv(&game, "g1h1");
    let game = mv(&game, "g8h8");
    assert_eq!(game.make_move(&Mov::from_str("e1g1").unwrap()).unwrap_err(), Error::IllegalMove);
}

#[test]
fn castling_rejected_when_blocked_or_attacked() {
    // A white knight stands between king and rook.
    let blocked = Game::new("r3k2r/8/8/8/8/8/8/R3KN1R w KQkq - 0 1").unwrap();
    assert_eq!(blocked.make_move(&Mov::from_str("e1g1").unwrap()).unwrap_err(), Error::IllegalMove);
    // A black rook sweeps the f-file the king would cross.
    let attacked = Game::new("4kr2/8/8/8/8/8/8/R3K2R w KQ - 0 1").unwrap();
    assert_eq!(attacked.make_move(&Mov::from_str("e1g1").unwrap()).unwrap_err(), Error::IllegalMove);
    // The b1 square between rook and king is occupied.
    let long_blocked = Game::new("r3k2r/8/8/8/8/8/8/RN2K2R w KQkq - 0 1").unwrap();
    assert_eq!(long_blocked.make_move(&Mov::from_str("e1c1").unwrap()).unwrap_err(), Error::IllegalMove);
}

#[test]
fn en_passant_capture() {
    let game = Game::new(Game::fen_new_game()).unwrap();
    let game = mv(&game, "e2e4");
    let game = mv(&game, "a7a6");
    let game = mv(&game, "e4e5");
    let game = mv(&game, "d7d5");
    // The white e5 pawn takes the black d5 pawn in passing.
    let game = mv(&game, "e5d6");
    assert_eq!(game.fen().unwrap(),
        "rnbqkbnr/1pp1pppp/p2P4/8/8/8/PPPP1PPP/RNBQKBNR b KQkq - 0 3"
    );
}

#[test]
fn promotion_requires_a_piece_choice() {
    let game = Game::new("8/P6k/8/8/8/8/8/K7 w - - 0 1").unwrap();
    assert_eq!(
        game.make_move(&Mov::from_str("a7a8").unwrap()).unwrap_err(), Error::InvalidArgument);
    let promoted = mv(&game, "a7a8q");
    assert_eq!(promoted.fen().unwrap(), "Q7/7k/8/8/8/8/8/K7 b - - 0 1");
}

#[test]
fn moves_are_rejected_with_the_right_errors() {
    let game = Game::new(Game::fen_new_game()).unwrap();
    // An empty origin square is an invalid argument, not an illegal move.
    assert_eq!(
        game.make_move(&Mov::from_str("e4e5").unwrap()).unwrap_err(), Error::InvalidArgument);
    // A rook cannot jump over its own pawn.
    assert_eq!(game.make_move(&Mov::from_str("a1a3").unwrap()).unwrap_err(), Error::IllegalMove);
    // Moving the opponent's piece is not this side's call.
    assert_eq!(game.make_move(&Mov::from_str("e7e5").unwrap()).unwrap_err(), Error::InvalidArgument);
}

#[test]
fn pinned_piece_may_not_expose_the_king() {
    // The white knight on d2 shields its king from the black rook.
    let game = Game::new("4r2k/8/8/8/8/8/3NR3/4K3 w - - 0 1").unwrap();
    let game2 = Game::new("4r2k/8/8/8/8/8/4N3/4K3 w - - 0 1").unwrap();
    assert_eq!(game2.make_move(&Mov::from_str("e2c3").unwrap()).unwrap_err(), Error::IllegalMove);
    // An unpinned knight is free to go.
    assert!(game.make_move(&Mov::from_str("d2c4").unwrap()).is_ok());
}

#[test]
fn malformed_fen_is_rejected() {
    assert_eq!(Game::new("").unwrap_err(), Error::InvalidArgument);
    assert_eq!(Game::new("rnbqkbnr/pppppppp/8/8/8/8/PPPPPPPP/RNBQKBNR").unwrap_err(), Error::InvalidArgument);
    assert_eq!(Game::new("rnbqkbnr/pppppppp/8/8/8/8/PPPPPPPP/RNBQKBNR x KQkq - 0 1").unwrap_err(), Error::InvalidArgument);
    assert_eq!(Game::new("rnbqkbnr/pppppppp/8/8/8/8/PPPPPPPP/RNBQKBNR w KQkq - x 1").unwrap_err(), Error::InvalidArgument);
    // One rank short of 64 squares.
    assert_eq!(Game::new("pppppppp/8/8/8/8/PPPPPPPP/RNBQKBNR w KQkq - 0 1").unwrap_err(), Error::InvalidArgument);
}

#[test]
fn sufficient_mating_material_scale() {
    // Two bare kings: nobody can mate.
    let bare = Game::new("7k/8/8/8/8/8/8/K7 w - - 0 1").unwrap();
    assert!(!bare.has_sufficient_mating_material());
    // One knight each: both sides stay at score one.
    let knights = Game::new("6nk/8/8/8/8/8/8/KN6 w - - 0 1").unwrap();
    assert!(!knights.has_sufficient_mating_material());
    // A single pawn already scores two.
    let pawn = Game::new("7k/8/8/8/8/8/P7/K7 w - - 0 1").unwrap();
    assert!(pawn.has_sufficient_mating_material());
}

#[test]
fn legal_moves_from_counts_piece_destinations() {
    let game = Game::new(Game::fen_new_game()).unwrap();
    // A starting knight has two destinations, a pawn two pushes.
    assert_eq!(game.legal_moves_from(Square::from_index(1)).len(), 2);
    assert_eq!(game.legal_moves_from(Square::from_index(12)).len(), 2);
    // An empty square offers nothing.
    assert_eq!(game.legal_moves_from(Square::from_index(32)).len(), 0);
}

#[test]
fn next_turn_side_alternates() {
    let game = Game::new(Game::fen_new_game()).unwrap();
    assert_eq!(game.next_turn_side(), Side::White);
    let game = mv(&game, "e2e4");
    assert_eq!(game.next_turn_side(), Side::Black);
}

#[test]
fn promotion_choices_are_the_four_pieces() {
    let game = Game::new("8/P6k/8/8/8/8/8/K7 w - - 0 1").unwrap();
    let movs = game.legal_moves_from(Square::from_index(48));
    let mut promotions: Vec<Option<Piece>> = movs.iter().map(|m| m.promotion()).collect();
    promotions.sort();
    assert_eq!(
        promotions,
        vec![
            Some(Piece::Knight),
            Some(Piece::Bishop),
            Some(Piece::Rook),
            Some(Piece::Queen)
        ]
    );
}
