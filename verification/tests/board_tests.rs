use dot_chess::bitboard::BitBoard;
use dot_chess::board::Board;
use dot_chess::direction::Direction;
use dot_chess::file::File;
use dot_chess::piece::Piece;
use dot_chess::rank::Rank;
use dot_chess::side::Side;
use dot_chess::square::Square;

#[test]
fn board_square_to_index() {
    let index: u8 = Square::new(File::B, Rank::_2).to_index();
    assert_eq!(index, 9u8);
}

#[test]
fn board_square_from_index() {
    let square = Square::from_index(9);
    assert_eq!(square.file(), File::B);
    assert_eq!(square.rank(), Rank::_2);
}

#[test]
fn board_square_h8_index() {
    assert_eq!(Square::new(File::H, Rank::_8).to_index(), 63);
}

#[test]
fn board_square_a1_index() {
    assert_eq!(Square::new(File::A, Rank::_1).to_index(), 0);
}

#[test]
fn board_square_a2_index() {
    assert_eq!(Square::new(File::A, Rank::_2).to_index(), 8);
}

#[test]
fn board_square_b2_index() {
    assert_eq!(Square::new(File::B, Rank::_2).to_index(), 9);
}

#[test]
fn square_h8_bitboard() {
    let square = Square::new(File::H, Rank::_8);
    assert_eq!(
        square.to_bitboard(),
        BitBoard::from_u64(0b10000000_00000000_00000000_00000000_00000000_00000000_00000000_00000000u64)
    );
}

#[test]
fn square_a1_bitboard() {
    let square = Square::new(File::A, Rank::_1);
    assert_eq!(
        square.to_bitboard(),
        BitBoard::from_u64(0b00000000_00000000_00000000_00000000_00000000_00000000_00000000_00000001u64)
    );
}

#[test]
fn square_a2_bitboard() {
    let square = Square::new(File::A, Rank::_2);
    assert_eq!(
        square.to_bitboard(),
        BitBoard::from_u64(0b00000000_00000000_00000000_00000000_00000000_00000000_00000001_00000000u64)
    );
}

#[test]
fn square_b2_bitboard() {
    let square = Square::new(File::B, Rank::_2);
    assert_eq!(
        square.to_bitboard(),
        BitBoard::from_u64(0b00000000_00000000_00000000_00000000_00000000_00000000_00000010_00000000u64)
    );
}

#[test]
fn board_pawn_positions() {
    let board = Board::default();
    assert_eq!(
        board.pawns(),
        BitBoard::from_u64(0b00000000_11111111_00000000_00000000_00000000_00000000_11111111_00000000u64)
    );
}

#[test]
fn board_rook_positions() {
    let board = Board::default();
    assert_eq!(
        board.rooks(),
        BitBoard::from_u64(0b10000001_00000000_00000000_00000000_00000000_00000000_00000000_10000001u64)
    );
}

#[test]
fn board_knight_positions() {
    let board = Board::default();
    assert_eq!(
        board.knights(),
        BitBoard::from_u64(0b01000010_00000000_00000000_00000000_00000000_00000000_00000000_01000010u64)
    );
}

#[test]
fn board_bishop_positions() {
    let board = Board::default();
    assert_eq!(
        board.bishops(),
        BitBoard::from_u64(0b00100100_00000000_00000000_00000000_00000000_00000000_00000000_00100100u64)
    );
}

#[test]
fn board_queen_positions() {
    let board = Board::default();
    assert_eq!(
        board.queens(),
        BitBoard::from_u64(0b00001000_00000000_00000000_00000000_00000000_00000000_00000000_00001000u64)
    );
}

#[test]
fn board_king_positions() {
    let board = Board::default();
    assert_eq!(
        board.kings(),
        BitBoard::from_u64(0b00010000_00000000_00000000_00000000_00000000_00000000_00000000_00010000u64)
    );
}

#[test]
fn board_black_positions() {
    let board = Board::default();
    assert_eq!(
        board.black_pieces(),
        BitBoard::from_u64(0b11111111_11111111_00000000_00000000_00000000_00000000_00000000_00000000u64)
    );
}

#[test]
fn board_white_positions() {
    let board = Board::default();
    assert_eq!(
        board.white_pieces(),
        BitBoard::from_u64(0b00000000_00000000_00000000_00000000_00000000_00000000_11111111_11111111u64)
    );
}

#[test]
fn board_to_array() {
    let board = Board::default();
    let expected: Vec<i8> = vec![
        4, 2, 3, 5, 6, 3, 2, 4, //
        1, 1, 1, 1, 1, 1, 1, 1, //
        0, 0, 0, 0, 0, 0, 0, 0, //
        0, 0, 0, 0, 0, 0, 0, 0, //
        0, 0, 0, 0, 0, 0, 0, 0, //
        0, 0, 0, 0, 0, 0, 0, 0, //
        -1, -1, -1, -1, -1, -1, -1, -1, //
        -4, -2, -3, -5, -6, -3, -2, -4,
    ];
    assert_eq!(board.to_array(), expected);
}

#[test]
fn a6p_captures_b5N() {
    let mut board = Board::empty();
    let a6 = Square::new(File::A, Rank::_6);
    let b5 = Square::new(File::B, Rank::_5);
    board.set_piece(Side::Black, Piece::Pawn, a6);
    board.set_piece(Side::White, Piece::Knight, b5);
    let bitboard = board.pseudo_legal_moves_from(a6, false, false, Vec::new());
    assert!(bitboard.get(b5));
}

#[test]
fn ray_attacks_sw_g5() {
    let mut board = Board::empty();
    board.set_piece(Side::Black, Piece::Rook, Square::new(File::C, Rank::_1));
    board.set_piece(Side::Black, Piece::Pawn, Square::new(File::D, Rank::_2));
    assert_eq!(
        board.ray_attacks(Square::new(File::G, Rank::_5), Direction::SouthWest),
        BitBoard::from_u64(0x20100800)
    );
}

#[test]
fn ray_attacks_n_d5() {
    let mut board = Board::empty();
    board.set_piece(Side::Black, Piece::Rook, Square::new(File::D, Rank::_8));
    board.set_piece(Side::Black, Piece::Pawn, Square::new(File::D, Rank::_7));
    assert_eq!(
        board.ray_attacks(Square::new(File::D, Rank::_5), Direction::North),
        BitBoard::from_u64(0x8080000000000)
    );
}

#[test]
fn is_white_king_attacked() {
    let mut board = Board::empty();
    board.set_piece(Side::White, Piece::King, Square::new(File::C, Rank::_3));
    board.set_piece(Side::Black, Piece::Pawn, Square::new(File::B, Rank::_4));
    assert!(board.is_attacked(Square::new(File::C, Rank::_3), Side::Black));
}

#[test]
fn ray_attacks_sw_h8() {
    let mut board = Board::empty();
    let square = Square::new(File::H, Rank::_8);
    let pieces = [(Side::White, Piece::Rook, Square::new(File::A, Rank::_1))];
    for (side, piece, square) in pieces.iter() {
        board.set_piece(*side, *piece, *square);
    }
    assert_eq!(
        board.ray_attacks(square, Direction::SouthWest),
        BitBoard::from_u64(0x40201008040201)
    );
}

#[test]
fn board_get_pieces() {
    let mut board = Board::empty();
    let pieces: Vec<(Side, Piece, Square)> = vec![
        (Side::White, Piece::Rook, Square::from_index(0)),
        (Side::White, Piece::Knight, Square::from_index(1)),
        (Side::White, Piece::Bishop, Square::from_index(2)),
        (Side::White, Piece::Queen, Square::from_index(3)),
        (Side::White, Piece::King, Square::from_index(4)),
        (Side::White, Piece::Bishop, Square::from_index(5)),
        (Side::White, Piece::Knight, Square::from_index(6)),
        (Side::White, Piece::Rook, Square::from_index(7)),
        (Side::White, Piece::Pawn, Square::from_index(8)),
        (Side::White, Piece::Pawn, Square::from_index(9)),
        (Side::White, Piece::Pawn, Square::from_index(10)),
        (Side::White, Piece::Pawn, Square::from_index(11)),
        (Side::White, Piece::Pawn, Square::from_index(12)),
        (Side::White, Piece::Pawn, Square::from_index(13)),
        (Side::White, Piece::Pawn, Square::from_index(14)),
        (Side::White, Piece::Pawn, Square::from_index(15)),
        (Side::Black, Piece::Pawn, Square::from_index(48)),
        (Side::Black, Piece::Pawn, Square::from_index(49)),
        (Side::Black, Piece::Pawn, Square::from_index(50)),
        (Side::Black, Piece::Pawn, Square::from_index(51)),
        (Side::Black, Piece::Pawn, Square::from_index(52)),
        (Side::Black, Piece::Pawn, Square::from_index(53)),
        (Side::Black, Piece::Pawn, Square::from_index(54)),
        (Side::Black, Piece::Pawn, Square::from_index(55)),
        (Side::Black, Piece::Rook, Square::from_index(56)),
        (Side::Black, Piece::Knight, Square::from_index(57)),
        (Side::Black, Piece::Bishop, Square::from_index(58)),
        (Side::Black, Piece::Queen, Square::from_index(59)),
        (Side::Black, Piece::King, Square::from_index(60)),
        (Side::Black, Piece::Bishop, Square::from_index(61)),
        (Side::Black, Piece::Knight, Square::from_index(62)),
        (Side::Black, Piece::Rook, Square::from_index(63)),
    ];
    for (side, piece, square) in pieces.iter() {
        board.set_piece(*side, *piece, *square);
    }
    assert_eq!(board.pieces(), pieces);
}
