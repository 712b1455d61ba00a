use dot_chess::bitboard::BitBoard;
use dot_chess::direction::Direction;
use dot_chess::file::File;
use dot_chess::rank::Rank;
use dot_chess::square::Square;

#[test]
fn bitboard_rank_1_mask() {
    let bb = BitBoard::rank_mask(Square::new(File::H, Rank::_1));
    assert_eq!(bb, BitBoard::rank(Rank::_1));
}

#[test]
fn bitboard_rank_2_mask() {
    let bb = BitBoard::rank_mask(Square::new(File::H, Rank::_2));
    assert_eq!(bb, BitBoard::rank(Rank::_2));
}

#[test]
fn bitboard_rank_3_mask() {
    let bb = BitBoard::rank_mask(Square::new(File::H, Rank::_3));
    assert_eq!(bb, BitBoard::rank(Rank::_3));
}

#[test]
fn bitboard_rank_4_mask() {
    let bb = BitBoard::rank_mask(Square::new(File::H, Rank::_4));
    assert_eq!(bb, BitBoard::rank(Rank::_4));
}

#[test]
fn bitboard_rank_5_mask() {
    let bb = BitBoard::rank_mask(Square::new(File::H, Rank::_5));
    assert_eq!(bb, BitBoard::rank(Rank::_5));
}

#[test]
fn bitboard_rank_6_mask() {
    let bb = BitBoard::rank_mask(Square::new(File::H, Rank::_6));
    assert_eq!(bb, BitBoard::rank(Rank::_6));
}

#[test]
fn bitboard_rank_7_mask() {
    let bb = BitBoard::rank_mask(Square::new(File::H, Rank::_7));
    assert_eq!(bb, BitBoard::rank(Rank::_7));
}

#[test]
fn bitboard_rank_8_mask() {
    let bb = BitBoard::rank_mask(Square::new(File::H, Rank::_8));
    assert_eq!(bb, BitBoard::rank(Rank::_8));
}

#[test]
fn bitboard_file_a_mask() {
    let bb = BitBoard::file_mask(Square::new(File::A, Rank::_3));
    assert_eq!(bb, BitBoard::file(File::A));
}

#[test]
fn bitboard_file_b_mask() {
    let bb = BitBoard::file_mask(Square::new(File::B, Rank::_3));
    assert_eq!(bb, BitBoard::file(File::B));
}

#[test]
fn bitboard_file_c_mask() {
    let bb = BitBoard::file_mask(Square::new(File::C, Rank::_3));
    assert_eq!(bb, BitBoard::file(File::C));
}

#[test]
fn bitboard_file_d_mask() {
    let bb = BitBoard::file_mask(Square::new(File::D, Rank::_3));
    assert_eq!(bb, BitBoard::file(File::D));
}

#[test]
fn bitboard_file_e_mask() {
    let bb = BitBoard::file_mask(Square::new(File::E, Rank::_3));
    assert_eq!(bb, BitBoard::file(File::E));
}

#[test]
fn bitboard_file_f_mask() {
    let bb = BitBoard::file_mask(Square::new(File::F, Rank::_3));
    assert_eq!(bb, BitBoard::file(File::F));
}

#[test]
fn bitboard_file_g_mask() {
    let bb = BitBoard::file_mask(Square::new(File::G, Rank::_3));
    assert_eq!(bb, BitBoard::file(File::G));
}

#[test]
fn bitboard_file_h_mask() {
    let bb = BitBoard::file_mask(Square::new(File::H, Rank::_1));
    assert_eq!(bb, BitBoard::file(File::H));
}

#[test]
fn bitboard_diagonal_mask_b3() {
    let bb = BitBoard::diagonal_mask(Square::new(File::B, Rank::_3));
    assert_eq!(bb, BitBoard::from_u64(0x4020100804020100));
}

#[test]
fn bitboard_anti_diagonal_mask_b3() {
    let bb = BitBoard::anti_diagonal_mask(Square::new(File::B, Rank::_3));
    assert_eq!(bb, BitBoard::from_u64(0x1020408));
}

#[test]
fn bitboard_square_h8() {
    let bb = BitBoard::square(Square::new(File::H, Rank::_8));
    assert_eq!(bb, BitBoard::from_u64(0x8000000000000000));
}

#[test]
fn bitboard_square_a1() {
    let bb = BitBoard::square(Square::new(File::A, Rank::_1));
    assert_eq!(bb, BitBoard::from_u64(0x1));
}

#[test]
fn bitboard_square_a2() {
    let bb = BitBoard::square(Square::new(File::A, Rank::_2));
    assert_eq!(bb, BitBoard::from_u64(0x100));
}

#[test]
fn bitboard_square_b2() {
    let bb = BitBoard::square(Square::new(File::B, Rank::_2));
    assert_eq!(bb, BitBoard::from_u64(0x200));
}

#[test]
fn bitboard_queen_e6_attacks_mask() {
    let bb = BitBoard::queen_attacks_mask(Square::new(File::E, Rank::_6));
    assert_eq!(bb, BitBoard::from_u64(0x5438ef3854921110));
}

#[test]
fn bitboard_rook_e6_attacks_mask() {
    let bb = BitBoard::rook_attacks_mask(Square::new(File::E, Rank::_6));
    assert_eq!(bb, BitBoard::from_u64(0x1010ef1010101010));
}

#[test]
fn bitboard_bishop_e6_attacks_mask() {
    let bb = BitBoard::bishop_attacks_mask(Square::new(File::E, Rank::_6));
    assert_eq!(bb, BitBoard::from_u64(0x4428002844820100));
}

#[test]
fn bitboard_king_a1_attacks_mask() {
    let bb = BitBoard::king_attacks_mask(Square::new(File::A, Rank::_1));
    assert_eq!(bb, BitBoard::from_u64(0x302));
}

#[test]
fn bitboard_king_h7_attacks_mask() {
    let bb = BitBoard::king_attacks_mask(Square::new(File::H, Rank::_7));
    assert_eq!(bb, BitBoard::from_u64(0xc040c00000000000));
}

#[test]
fn bitboard_king_d3_attacks_mask() {
    let bb = BitBoard::king_attacks_mask(Square::new(File::D, Rank::_3));
    assert_eq!(bb, BitBoard::from_u64(0x1c141c00));
}

fn white_pawn_set() -> BitBoard {
    let squares = [
        Square::new(File::A, Rank::_1),
        Square::new(File::B, Rank::_2),
        Square::new(File::C, Rank::_1),
        Square::new(File::D, Rank::_1),
        Square::new(File::F, Rank::_3),
        Square::new(File::H, Rank::_7),
    ];
    let mut pawns = BitBoard::empty();
    for square in squares.iter() {
        pawns = pawns.union(BitBoard::square(*square));
    }
    pawns
}

fn black_pawn_set() -> BitBoard {
    let squares = [
        Square::new(File::A, Rank::_8),
        Square::new(File::B, Rank::_7),
        Square::new(File::C, Rank::_8),
        Square::new(File::D, Rank::_8),
        Square::new(File::F, Rank::_5),
        Square::new(File::H, Rank::_2),
    ];
    let mut pawns = BitBoard::empty();
    for square in squares.iter() {
        pawns = pawns.union(BitBoard::square(*square));
    }
    pawns
}

#[test]
fn bitboard_white_pawn_any_attacks_mask() {
    assert_eq!(
        white_pawn_set().white_pawn_any_attacks_mask(),
        BitBoard::from_u64(0x4000000050051e00)
    );
}

#[test]
fn bitboard_white_pawn_east_attacks_mask() {
    assert_eq!(
        white_pawn_set().white_pawn_east_attacks_mask(),
        BitBoard::from_u64(0x40041a00)
    );
}

#[test]
fn bitboard_white_pawn_west_attacks_mask() {
    assert_eq!(
        white_pawn_set().white_pawn_west_attacks_mask(),
        BitBoard::from_u64(0x4000000010010600)
    );
}

#[test]
fn bitboard_white_pawn_single_attacks_mask() {
    assert_eq!(
        white_pawn_set().white_pawn_single_attacks_mask(),
        BitBoard::from_u64(0x4000000050051c00)
    );
}

#[test]
fn bitboard_white_pawn_double_attacks_mask() {
    assert_eq!(
        white_pawn_set().white_pawn_double_attacks_mask(),
        BitBoard::from_u64(0x200)
    );
}

#[test]
fn bitboard_black_pawn_any_attacks_mask() {
    assert_eq!(
        black_pawn_set().black_pawn_any_attacks_mask(),
        BitBoard::from_u64(0x1e050050000040)
    );
}

#[test]
fn bitboard_black_pawn_east_attacks_mask() {
    assert_eq!(
        black_pawn_set().black_pawn_east_attacks_mask(),
        BitBoard::from_u64(0x1a040040000000)
    );
}

#[test]
fn bitboard_black_pawn_west_attacks_mask() {
    assert_eq!(
        black_pawn_set().black_pawn_west_attacks_mask(),
        BitBoard::from_u64(0x6010010000040)
    );
}

#[test]
fn bitboard_black_pawn_single_attacks_mask() {
    assert_eq!(
        black_pawn_set().black_pawn_single_attacks_mask(),
        BitBoard::from_u64(0x1c050050000040)
    );
}

#[test]
fn bitboard_black_pawn_double_attacks_mask() {
    assert_eq!(
        black_pawn_set().black_pawn_double_attacks_mask(),
        BitBoard::from_u64(0x2000000000000)
    );
}

#[test]
fn bitboard_north_one_h1() {
    let bb = BitBoard::square(Square::new(File::H, Rank::_1)).north_one();
    assert_eq!(bb, BitBoard::from_u64(0x8000));
}

#[test]
fn bitboard_north_one_a8() {
    let bb = BitBoard::square(Square::new(File::A, Rank::_8)).north_one();
    assert_eq!(bb, BitBoard::empty());
}

#[test]
fn bitboard_north_east_one_g1() {
    let bb = BitBoard::square(Square::new(File::G, Rank::_1)).north_east_one();
    assert_eq!(bb, BitBoard::from_u64(0x8000));
}

#[test]
fn bitboard_north_west_one_g1() {
    let bb = BitBoard::square(Square::new(File::G, Rank::_1)).north_west_one();
    assert_eq!(bb, BitBoard::from_u64(0x2000));
}

#[test]
fn bitboard_east_one_g2() {
    let bb = BitBoard::square(Square::new(File::G, Rank::_2)).east_one();
    assert_eq!(bb, BitBoard::from_u64(0x8000));
}

#[test]
fn bitboard_west_one_g2() {
    let bb = BitBoard::square(Square::new(File::G, Rank::_2)).west_one();
    assert_eq!(bb, BitBoard::from_u64(0x2000));
}

#[test]
fn bitboard_south_one_g2() {
    let bb = BitBoard::square(Square::new(File::G, Rank::_2)).south_one();
    assert_eq!(bb, BitBoard::from_u64(0x40));
}

#[test]
fn bitboard_south_one_g1() {
    let bb = BitBoard::square(Square::new(File::G, Rank::_1)).south_one();
    assert_eq!(bb, BitBoard::empty());
}

#[test]
fn bitboard_south_west_one_g2() {
    let bb = BitBoard::square(Square::new(File::G, Rank::_2)).south_west_one();
    assert_eq!(bb, BitBoard::from_u64(0x20));
}

#[test]
fn bitboard_south_east_one_g2() {
    let bb = BitBoard::square(Square::new(File::G, Rank::_2)).south_east_one();
    assert_eq!(bb, BitBoard::from_u64(0x80));
}

#[test]
fn bitboard_get_g2_true() {
    let bb = BitBoard::square(Square::new(File::G, Rank::_2));
    assert_eq!(bb.get(Square::new(File::G, Rank::_2)), true);
}

#[test]
fn bitboard_get_g2_false() {
    let bb = BitBoard::square(Square::new(File::G, Rank::_2)).complement();
    assert_eq!(bb.get(Square::new(File::G, Rank::_2)), false);
}

#[test]
fn bitboard_neg_bitboard() {
    let bb = BitBoard::square(Square::new(File::G, Rank::_2)).complement();
    assert_eq!(bb, BitBoard::from_u64(0xffffffffffffbfff));
}

#[test]
fn bitboard_ray_mask_sw_g5() {
    let bb = BitBoard::ray_mask(Square::new(File::G, Rank::_5), Direction::SouthWest);
    assert_eq!(bb, BitBoard::from_u64(0x20100804));
}

#[test]
fn bitboard_ray_mask_nw_g5() {
    let bb = BitBoard::ray_mask(Square::new(File::G, Rank::_5), Direction::NorthWest);
    assert_eq!(bb, BitBoard::from_u64(0x810200000000000));
}

#[test]
fn in_between_a1_h8() {
    let bb = BitBoard::in_between(
        Square::new(File::A, Rank::_1),
        Square::new(File::H, Rank::_8),
    );
    assert_eq!(bb, BitBoard::from_u64(0x40201008040200));
}

#[test]
fn in_between_h8_a1() {
    let bb = BitBoard::in_between(
        Square::new(File::H, Rank::_8),
        Square::new(File::A, Rank::_1),
    );
    assert_eq!(bb, BitBoard::from_u64(0x40201008040200));
}

#[test]
fn in_between_g8_a1() {
    let bb = BitBoard::in_between(
        Square::new(File::G, Rank::_8),
        Square::new(File::A, Rank::_1),
    );
    assert_eq!(bb, BitBoard::empty());
}

#[test]
fn in_between_a1_a8() {
    let bb = BitBoard::in_between(
        Square::new(File::A, Rank::_1),
        Square::new(File::A, Rank::_8),
    );
    assert_eq!(bb, BitBoard::from_u64(0x1010101010100));
}

#[test]
fn in_between_b4_g4() {
    let bb = BitBoard::in_between(
        Square::new(File::B, Rank::_4),
        Square::new(File::G, Rank::_4),
    );
    assert_eq!(bb, BitBoard::from_u64(0x3c000000));
}

#[test]
fn in_between_mask_a1_h8() {
    let bb = BitBoard::in_between_mask(
        Square::new(File::A, Rank::_1),
        Square::new(File::H, Rank::_8),
    );
    assert_eq!(bb, BitBoard::from_u64(0x40201008040200));
}

#[test]
fn in_between_mask_h8_a1() {
    let bb = BitBoard::in_between_mask(
        Square::new(File::H, Rank::_8),
        Square::new(File::A, Rank::_1),
    );
    assert_eq!(bb, BitBoard::from_u64(0x40201008040200));
}

#[test]
fn in_between_mask_g8_a1() {
    let bb = BitBoard::in_between_mask(
        Square::new(File::G, Rank::_8),
        Square::new(File::A, Rank::_1),
    );
    assert_eq!(bb, BitBoard::empty());
}

#[test]
fn in_between_mask_a1_a8() {
    let bb = BitBoard::in_between_mask(
        Square::new(File::A, Rank::_1),
        Square::new(File::A, Rank::_8),
    );
    assert_eq!(bb, BitBoard::from_u64(0x1010101010100));
}

#[test]
fn in_between_mask_b4_g4() {
    let bb = BitBoard::in_between_mask(
        Square::new(File::B, Rank::_4),
        Square::new(File::G, Rank::_4),
    );
    assert_eq!(bb, BitBoard::from_u64(0x3c000000));
}

#[test]
fn pop_square() {
    let square = Square::from_index(18);
    let mut bb = BitBoard::square(square);
    assert_eq!(bb.pop_square(), square);
    assert!(bb.is_empty());
}

#[test]
fn knight_attacks_do_not_wrap() {
    let bb = BitBoard::knight_attacks_mask(Square::new(File::A, Rank::_1));
    assert_eq!(bb, BitBoard::from_u64(0x20400));
    let bb = BitBoard::knight_attacks_mask(Square::new(File::H, Rank::_4));
    assert_eq!(bb, BitBoard::from_u64(0x402000204000));
}

#[test]
fn bit_scan_finds_both_ends() {
    let bb = BitBoard::square(Square::from_index(5)).union(BitBoard::square(Square::from_index(40)));
    assert_eq!(bb.bit_scan(false), 5);
    assert_eq!(bb.bit_scan(true), 40);
    assert_eq!(bb.bit_scan_forward(), Square::from_index(5));
    assert_eq!(bb.bit_scan_reverse(), Square::from_index(40));
}
