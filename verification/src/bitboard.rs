//! A 64-bit set of board squares.
//!
//! Bit i of the underlying word stands for the square with index i
//! (a1 is bit 0, h8 is bit 63).  The module also provides the fixed mask
//! tables of the move generator: rank, file and diagonal line masks,
//! knight and king offset masks, pawn attack masks, and the half-board
//! masks used to restrict a line mask to a single ray direction.

use vstd::prelude::*;
use vstd::std_specs::bits::{u64_leading_zeros, u64_trailing_zeros};
use crate::direction::Direction;
use crate::file::File;
use crate::rank::Rank;
use crate::square::Square;

verus! {

/// True when bit `i` of `x` is set; the membership predicate of a bit set.
pub open spec fn bit_at(x: u64, i: u64) -> bool {
    (x >> i) & 1 == 1
}

/// A one bit shifted below the word width stays a nonzero value.
pub proof fn lemma_one_shl_positive(n: u64)
    by (bit_vector)
    ensures
        n < 64 ==> (1u64 << n) >= 1,
{
}

/// Membership distributes over union.
pub proof fn lemma_bit_or(x: u64, y: u64, i: u64)
    by (bit_vector)
    ensures
        bit_at(x | y, i) == (bit_at(x, i) || bit_at(y, i)),
{
}

/// Membership distributes over symmetric difference.
pub proof fn lemma_bit_xor(x: u64, y: u64, i: u64)
    by (bit_vector)
    ensures
        bit_at(x ^ y, i) == (bit_at(x, i) != bit_at(y, i)),
{
}

/// A single-square mask holds exactly its own square.
pub proof fn lemma_bit_single(r: u64, i: u64)
    by (bit_vector)
    ensures
        r < 64 && i < 64 ==> bit_at(1u64 << r, i) == (i == r),
{
}

/// Membership distributes over union, for ambient use.
pub broadcast proof fn lemma_bit_or_auto(x: u64, y: u64, i: u64)
    by (bit_vector)
    ensures
        #[trigger] bit_at(x | y, i) == (bit_at(x, i) || bit_at(y, i)),
{
}

/// Membership distributes over intersection, for ambient use.
pub broadcast proof fn lemma_bit_and_auto(x: u64, y: u64, i: u64)
    by (bit_vector)
    ensures
        #[trigger] bit_at(x & y, i) == (bit_at(x, i) && bit_at(y, i)),
{
}

/// Membership in a complement flips on the board, for ambient use.
pub broadcast proof fn lemma_bit_not_auto(x: u64, i: u64)
    by (bit_vector)
    ensures
        i < 64 ==> #[trigger] bit_at(!x, i) == !bit_at(x, i),
{
}

/// A single-square mask holds exactly its own square, for ambient use.
pub broadcast proof fn lemma_bit_sq_auto(r: u64, j: u64)
    by (bit_vector)
    ensures
        r < 64 && j < 64 ==> #[trigger] bit_at(sq_bb(r), j) == (j == r),
{
}

/// Clearing a set bit strictly shrinks the word.
pub proof fn lemma_clear_bit_shrinks(x: u64, r: u64)
    by (bit_vector)
    ensures
        r < 64 && bit_at(x, r) ==> (x ^ (1u64 << r)) < x,
{
}

/// The empty set holds no square.
pub proof fn lemma_bit_empty(i: u64)
    by (bit_vector)
    ensures
        !bit_at(0u64, i),
{
}

/// No set holds an index beyond the board.
pub proof fn lemma_bit_oob(x: u64, i: u64)
    by (bit_vector)
    ensures
        i >= 64 ==> !bit_at(x, i),
{
}

/// Testing a bit through a mask agrees with testing it through a shift.
pub proof fn lemma_bit_mask_test(x: u64, i: u64)
    by (bit_vector)
    ensures
        i < 64 ==> ((x & (1u64 << i)) != 0) == bit_at(x, i),
        i < 64 ==> (((1u64 << i) & x) != 0) == bit_at(x, i),
{
}

/// The exclusive-or algebra used by the incremental hash: association,
/// commutation, the zero element, and self-cancellation.
pub proof fn lemma_xor32(a: u32, b: u32, c: u32)
    by (bit_vector)
    ensures
        (a ^ b) ^ c == a ^ (b ^ c),
        a ^ b == b ^ a,
        a ^ 0 == a,
        a ^ a == 0,
        (a ^ b) ^ b == a,
{
}

/// Complementing the mask of the bits below `n` leaves the bits from `n` up.
pub proof fn lemma_not_low_mask(n: u64)
    by (bit_vector)
    ensures
        n < 64 ==> !low_mask(n) == (0xffff_ffff_ffff_ffffu64 << n),
        !0xffff_ffff_ffff_ffffu64 == 0u64,
{
}

/// Testing one bit yields zero or one, so being nonzero and being one agree.
pub proof fn lemma_bit_test(x: u64, k: u64)
    by (bit_vector)
    ensures
        ((x >> k) & 1 != 0) == ((x >> k) & 1 == 1),
{
}

/// The single-square mask of square index `i`.
pub open spec fn sq_bb(i: u64) -> u64 {
    1u64 << i
}

/// The mask of the bits below `n`.
pub open spec fn low_mask(n: u64) -> u64 {
    if n >= 64 {
        0xffff_ffff_ffff_ffffu64
    } else {
        ((1u64 << n) - 1) as u64
    }
}

/// All squares after `i` in index order.
pub open spec fn pos_bb(i: u64) -> u64 {
    !low_mask((i + 1) as u64)
}

/// All squares before `i` in index order.
pub open spec fn neg_bb(i: u64) -> u64 {
    low_mask(i)
}

/// The rank line through square `i`.
pub open spec fn rank_bb(i: u64) -> u64 {
    0xffu64 << ((i / 8) * 8) as u64
}

/// The file line through square `i`.
pub open spec fn file_bb(i: u64) -> u64 {
    0x0101_0101_0101_0101u64 << (i % 8) as u64
}

/// The a1-h8 diagonal line through square `i`.
pub open spec fn diag_bb(i: u64) -> u64 {
    let d = 8 * ((i as int) % 8) - 8 * ((i as int) / 8);
    if d >= 0 {
        0x8040_2010_0804_0201u64 >> (d as u64)
    } else {
        0x8040_2010_0804_0201u64 << ((-d) as u64)
    }
}

/// The h1-a8 anti-diagonal line through square `i`.
pub open spec fn anti_diag_bb(i: u64) -> u64 {
    let d = 56 - 8 * ((i as int) % 8) - 8 * ((i as int) / 8);
    if d >= 0 {
        0x0102_0408_1020_4080u64 >> (d as u64)
    } else {
        0x0102_0408_1020_4080u64 << ((-d) as u64)
    }
}

/// The one-step shifts; the east and west families mask out the wrap file.
pub open spec fn north1(x: u64) -> u64 {
    x << 8
}

pub open spec fn south1(x: u64) -> u64 {
    x >> 8
}

pub open spec fn east1(x: u64) -> u64 {
    (x << 1) & 0xfefe_fefe_fefe_fefeu64
}

pub open spec fn west1(x: u64) -> u64 {
    (x >> 1) & 0x7f7f_7f7f_7f7f_7f7fu64
}

pub open spec fn north_east1(x: u64) -> u64 {
    (x << 9) & 0xfefe_fefe_fefe_fefeu64
}

pub open spec fn south_east1(x: u64) -> u64 {
    (x >> 7) & 0xfefe_fefe_fefe_fefeu64
}

pub open spec fn north_west1(x: u64) -> u64 {
    (x << 7) & 0x7f7f_7f7f_7f7f_7f7fu64
}

pub open spec fn south_west1(x: u64) -> u64 {
    (x >> 9) & 0x7f7f_7f7f_7f7f_7f7fu64
}

/// The ray from square `i` in the given direction, excluding `i` itself.
pub open spec fn ray_bb(i: u64, direction: Direction) -> u64 {
    match direction {
        Direction::North => file_bb(i) & pos_bb(i),
        Direction::NorthEast => diag_bb(i) & pos_bb(i),
        Direction::East => rank_bb(i) & pos_bb(i),
        Direction::SouthEast => anti_diag_bb(i) & neg_bb(i),
        Direction::South => file_bb(i) & neg_bb(i),
        Direction::SouthWest => diag_bb(i) & neg_bb(i),
        Direction::West => rank_bb(i) & neg_bb(i),
        Direction::NorthWest => anti_diag_bb(i) & pos_bb(i),
    }
}

/// The fixed knight offset mask of square `i`; jumps never wrap around
/// the board edge.
pub open spec fn knight_bb(i: u64) -> u64 {
    let n = sq_bb(i);
    ((n << 17) & 0xfefe_fefe_fefe_fefeu64) | ((n << 10) & 0xfcfc_fcfc_fcfc_fcfcu64) | ((n
        >> 6) & 0xfcfc_fcfc_fcfc_fcfcu64) | ((n >> 15) & 0xfefe_fefe_fefe_fefeu64) | ((n
        << 15) & 0x7f7f_7f7f_7f7f_7f7fu64) | ((n << 6) & 0x3f3f_3f3f_3f3f_3f3fu64) | ((n
        >> 10) & 0x3f3f_3f3f_3f3f_3f3fu64) | ((n >> 17) & 0x7f7f_7f7f_7f7f_7f7fu64)
}

/// The fixed king neighbor mask of square `i`.
pub open spec fn king_bb(i: u64) -> u64 {
    let k = sq_bb(i);
    let row = east1(k) | west1(k) | k;
    (row | north1(row) | south1(row)) ^ k
}

/// Clears the lowest set bit.
pub open spec fn drop_lowest(x: u64) -> u64 {
    if x == 0 {
        0
    } else {
        x & ((x - 1) as u64)
    }
}

/// The mask of the bits at and below `i`.
pub open spec fn fill_bb(i: u64) -> u64 {
    low_mask((i + 1) as u64)
}

/// The squares strictly between two squares on a shared line, as the
/// rank, file, diagonal and anti-diagonal cases; empty when the squares
/// share no line.
pub open spec fn between_bb(from: u64, to: u64) -> u64 {
    let span = drop_lowest((fill_bb(from) ^ fill_bb(to)) >> 1);
    if rank_bb(from) & sq_bb(to) != 0 {
        rank_bb(from) & span
    } else if file_bb(from) & sq_bb(to) != 0 {
        file_bb(from) & span
    } else if diag_bb(from) & sq_bb(to) != 0 {
        diag_bb(from) & span
    } else if anti_diag_bb(from) & sq_bb(to) != 0 {
        anti_diag_bb(from) & span
    } else {
        0
    }
}

#[derive(Copy, Clone, Debug, PartialEq, Eq, Structural)]
pub struct BitBoard(u64);

impl View for BitBoard {
    type V = u64;

    closed spec fn view(&self) -> u64 {
        self.0
    }
}

impl BitBoard {
    /// The empty set.
    pub fn empty() -> (r: BitBoard)
        ensures
            r@ == 0u64,
    {
        BitBoard(0u64)
    }

    /// The set of all 64 squares.
    pub fn full() -> (r: BitBoard)
        ensures
            r@ == 0xffff_ffff_ffff_ffffu64,
    {
        BitBoard(0xffff_ffff_ffff_ffffu64)
    }

    /// The whole rank holding the given rank number.
    pub fn rank(rank: Rank) -> (r: BitBoard)
        ensures
            r@ == rank_bb((8 * rank.spec_index()) as u64),
    {
        BitBoard(0xffu64 << (8 * rank.to_index()))
    }

    /// The whole file holding the given file letter.
    pub fn file(file: File) -> (r: BitBoard)
        ensures
            r@ == file_bb(file.spec_index() as u64),
    {
        BitBoard(0x0101_0101_0101_0101u64 << file.to_index())
    }

    pub fn from_u64(bits: u64) -> (r: BitBoard)
        ensures
            r@ == bits,
    {
        BitBoard(bits)
    }

    pub fn to_u64(&self) -> (r: u64)
        ensures
            r == self@,
    {
        self.0
    }

    /// The set holding exactly the given square.
    pub fn square(square: Square) -> (r: BitBoard)
        ensures
            r@ == sq_bb(square@ as u64),
    {
        BitBoard(1u64 << square.to_index())
    }

    /// All squares after the given square in index order.
    pub fn positive(square: Square) -> (r: BitBoard)
        ensures
            r@ == pos_bb(square@ as u64),
    {
        let index = square.to_index();
        proof {
            lemma_not_low_mask((index + 1) as u64);
        }
        if index == 63 {
            BitBoard(0)
        } else {
            BitBoard(0xffff_ffff_ffff_ffffu64 << (index + 1))
        }
    }

    /// All squares before the given square in index order.
    pub fn negative(square: Square) -> (r: BitBoard)
        ensures
            r@ == neg_bb(square@ as u64),
    {
        let index = square.to_index();
        proof {
            lemma_one_shl_positive(index as u64);
        }
        BitBoard((1u64 << index) - 1)
    }

    /// The rank line through the given square.
    pub fn rank_mask(square: Square) -> (r: BitBoard)
        ensures
            r@ == rank_bb(square@ as u64),
    {
        let index = square.to_index();
        BitBoard(0xffu64 << ((index / 8) * 8))
    }

    /// The file line through the given square.
    pub fn file_mask(square: Square) -> (r: BitBoard)
        ensures
            r@ == file_bb(square@ as u64),
    {
        BitBoard(0x0101_0101_0101_0101u64 << (square.to_index() % 8))
    }

    /// The a1-h8 diagonal line through the given square.
    pub fn diagonal_mask(square: Square) -> (r: BitBoard)
        ensures
            r@ == diag_bb(square@ as u64),
    {
        let index = square.to_index();
        let file = index % 8;
        let rank = index / 8;
        if file >= rank {
            BitBoard(0x8040_2010_0804_0201u64 >> (8 * (file - rank)))
        } else {
            BitBoard(0x8040_2010_0804_0201u64 << (8 * (rank - file)))
        }
    }

    /// The h1-a8 anti-diagonal line through the given square.
    pub fn anti_diagonal_mask(square: Square) -> (r: BitBoard)
        ensures
            r@ == anti_diag_bb(square@ as u64),
    {
        let index = square.to_index();
        let file = index % 8;
        let rank = index / 8;
        if file + rank <= 7 {
            BitBoard(0x0102_0408_1020_4080u64 >> (8 * (7 - file - rank)))
        } else {
            BitBoard(0x0102_0408_1020_4080u64 << (8 * (file + rank - 7)))
        }
    }

    /// The squares strictly between two squares on a shared line.
    pub fn in_between(from_square: Square, to_square: Square) -> (r: BitBoard)
        ensures
            r@ == between_bb(from_square@ as u64, to_square@ as u64),
    {
        let from = from_square.to_index();
        let to = to_square.to_index();
        let from_fill = BitBoard::fill(from);
        let to_fill = BitBoard::fill(to);
        let raw = (from_fill ^ to_fill) >> 1;
        let span = if raw == 0 {
            0u64
        } else {
            raw & (raw - 1)
        };
        let to_bb = BitBoard::square(to_square);

        let rank_line = BitBoard::rank_mask(from_square);
        if rank_line.intersect(to_bb).not_empty() {
            return BitBoard(rank_line.0 & span);
        }
        let file_line = BitBoard::file_mask(from_square);
        if file_line.intersect(to_bb).not_empty() {
            return BitBoard(file_line.0 & span);
        }
        let diagonal_line = BitBoard::diagonal_mask(from_square);
        if diagonal_line.intersect(to_bb).not_empty() {
            return BitBoard(diagonal_line.0 & span);
        }
        let anti_diagonal_line = BitBoard::anti_diagonal_mask(from_square);
        if anti_diagonal_line.intersect(to_bb).not_empty() {
            return BitBoard(anti_diagonal_line.0 & span);
        }
        BitBoard(0)
    }

    /// Same as `in_between`.
    pub fn in_between_mask(from_square: Square, to_square: Square) -> (r: BitBoard)
        ensures
            r@ == between_bb(from_square@ as u64, to_square@ as u64),
    {
        BitBoard::in_between(from_square, to_square)
    }

    /// The mask of the bits at and below the given index.
    fn fill(index: u8) -> (r: u64)
        requires
            index < 64,
        ensures
            r == fill_bb(index as u64),
    {
        if index == 63 {
            0xffff_ffff_ffff_ffffu64
        } else {
            proof {
                lemma_one_shl_positive((index + 1) as u64);
            }
            (1u64 << (index + 1)) - 1
        }
    }

    /// The ray from the given square in the given direction.
    pub fn ray_mask(square: Square, direction: Direction) -> (r: BitBoard)
        ensures
            r@ == ray_bb(square@ as u64, direction),
    {
        match direction {
            Direction::North => BitBoard::file_mask(square).intersect(BitBoard::positive(square)),
            Direction::NorthEast => BitBoard::diagonal_mask(square).intersect(
                BitBoard::positive(square),
            ),
            Direction::East => BitBoard::rank_mask(square).intersect(BitBoard::positive(square)),
            Direction::SouthEast => BitBoard::anti_diagonal_mask(square).intersect(
                BitBoard::negative(square),
            ),
            Direction::South => BitBoard::file_mask(square).intersect(BitBoard::negative(square)),
            Direction::SouthWest => BitBoard::diagonal_mask(square).intersect(
                BitBoard::negative(square),
            ),
            Direction::West => BitBoard::rank_mask(square).intersect(BitBoard::negative(square)),
            Direction::NorthWest => BitBoard::anti_diagonal_mask(square).intersect(
                BitBoard::positive(square),
            ),
        }
    }

    /// The full rook line cross through the given square.
    pub fn rook_attacks_mask(square: Square) -> (r: BitBoard)
        ensures
            r@ == (file_bb(square@ as u64) ^ rank_bb(square@ as u64)),
    {
        BitBoard(BitBoard::file_mask(square).0 ^ BitBoard::rank_mask(square).0)
    }

    /// The full bishop diagonal cross through the given square.
    pub fn bishop_attacks_mask(square: Square) -> (r: BitBoard)
        ensures
            r@ == (diag_bb(square@ as u64) ^ anti_diag_bb(square@ as u64)),
    {
        BitBoard(BitBoard::diagonal_mask(square).0 ^ BitBoard::anti_diagonal_mask(square).0)
    }

    /// The union of the rook and bishop lines through the given square.
    pub fn queen_attacks_mask(square: Square) -> (r: BitBoard)
        ensures
            r@ == ((file_bb(square@ as u64) ^ rank_bb(square@ as u64)) | (diag_bb(
                square@ as u64,
            ) ^ anti_diag_bb(square@ as u64))),
    {
        BitBoard(BitBoard::rook_attacks_mask(square).0 | BitBoard::bishop_attacks_mask(square).0)
    }

    /// The fixed knight offset mask of the given square.
    pub fn knight_attacks_mask(square: Square) -> (r: BitBoard)
        ensures
            r@ == knight_bb(square@ as u64),
    {
        let n = BitBoard::square(square).0;
        BitBoard(
            ((n << 17) & 0xfefe_fefe_fefe_fefeu64) | ((n << 10) & 0xfcfc_fcfc_fcfc_fcfcu64) | ((n
                >> 6) & 0xfcfc_fcfc_fcfc_fcfcu64) | ((n >> 15) & 0xfefe_fefe_fefe_fefeu64) | ((n
                << 15) & 0x7f7f_7f7f_7f7f_7f7fu64) | ((n << 6) & 0x3f3f_3f3f_3f3f_3f3fu64) | ((n
                >> 10) & 0x3f3f_3f3f_3f3f_3f3fu64) | ((n >> 17) & 0x7f7f_7f7f_7f7f_7f7fu64),
        )
    }

    /// The fixed king neighbor mask of the given square.
    pub fn king_attacks_mask(square: Square) -> (r: BitBoard)
        ensures
            r@ == king_bb(square@ as u64),
    {
        let king = BitBoard::square(square);
        let row = king.east_one().union(king.west_one()).union(king);
        let attacks = row.union(row.north_one()).union(row.south_one());
        attacks.xor(king)
    }

    // Pawn attack masks, for whole pawn sets at once.

    pub fn white_pawn_east_attacks_mask(&self) -> (r: BitBoard)
        ensures
            r@ == north_east1(self@),
    {
        self.north_east_one()
    }

    pub fn white_pawn_west_attacks_mask(&self) -> (r: BitBoard)
        ensures
            r@ == north_west1(self@),
    {
        self.north_west_one()
    }

    pub fn black_pawn_east_attacks_mask(&self) -> (r: BitBoard)
        ensures
            r@ == south_east1(self@),
    {
        self.south_east_one()
    }

    pub fn black_pawn_west_attacks_mask(&self) -> (r: BitBoard)
        ensures
            r@ == south_west1(self@),
    {
        self.south_west_one()
    }

    pub fn white_pawn_any_attacks_mask(&self) -> (r: BitBoard)
        ensures
            r@ == (north_east1(self@) | north_west1(self@)),
    {
        BitBoard(self.white_pawn_east_attacks_mask().0 | self.white_pawn_west_attacks_mask().0)
    }

    pub fn white_pawn_double_attacks_mask(&self) -> (r: BitBoard)
        ensures
            r@ == (north_east1(self@) & north_west1(self@)),
    {
        BitBoard(self.white_pawn_east_attacks_mask().0 & self.white_pawn_west_attacks_mask().0)
    }

    pub fn white_pawn_single_attacks_mask(&self) -> (r: BitBoard)
        ensures
            r@ == (north_east1(self@) ^ north_west1(self@)),
    {
        BitBoard(self.white_pawn_east_attacks_mask().0 ^ self.white_pawn_west_attacks_mask().0)
    }

    pub fn black_pawn_any_attacks_mask(&self) -> (r: BitBoard)
        ensures
            r@ == (south_east1(self@) | south_west1(self@)),
    {
        BitBoard(self.black_pawn_east_attacks_mask().0 | self.black_pawn_west_attacks_mask().0)
    }

    pub fn black_pawn_double_attacks_mask(&self) -> (r: BitBoard)
        ensures
            r@ == (south_east1(self@) & south_west1(self@)),
    {
        BitBoard(self.black_pawn_east_attacks_mask().0 & self.black_pawn_west_attacks_mask().0)
    }

    pub fn black_pawn_single_attacks_mask(&self) -> (r: BitBoard)
        ensures
            r@ == (south_east1(self@) ^ south_west1(self@)),
    {
        BitBoard(self.black_pawn_east_attacks_mask().0 ^ self.black_pawn_west_attacks_mask().0)
    }

    // Set algebra.

    pub fn union(self, other: BitBoard) -> (r: BitBoard)
        ensures
            r@ == (self@ | other@),
    {
        BitBoard(self.0 | other.0)
    }

    pub fn intersect(self, other: BitBoard) -> (r: BitBoard)
        ensures
            r@ == (self@ & other@),
    {
        BitBoard(self.0 & other.0)
    }

    pub fn xor(self, other: BitBoard) -> (r: BitBoard)
        ensures
            r@ == (self@ ^ other@),
    {
        BitBoard(self.0 ^ other.0)
    }

    pub fn complement(self) -> (r: BitBoard)
        ensures
            r@ == !self@,
    {
        BitBoard(!self.0)
    }

    pub fn is_empty(self) -> (r: bool)
        ensures
            r == (self@ == 0),
    {
        self.0 == 0
    }

    pub fn not_empty(self) -> (r: bool)
        ensures
            r == (self@ != 0),
    {
        self.0 != 0
    }

    // One-step shifts.

    pub fn north_one(self) -> (r: BitBoard)
        ensures
            r@ == north1(self@),
    {
        BitBoard(self.0 << 8)
    }

    pub fn south_one(self) -> (r: BitBoard)
        ensures
            r@ == south1(self@),
    {
        BitBoard(self.0 >> 8)
    }

    pub fn east_one(self) -> (r: BitBoard)
        ensures
            r@ == east1(self@),
    {
        BitBoard((self.0 << 1) & 0xfefe_fefe_fefe_fefeu64)
    }

    pub fn west_one(self) -> (r: BitBoard)
        ensures
            r@ == west1(self@),
    {
        BitBoard((self.0 >> 1) & 0x7f7f_7f7f_7f7f_7f7fu64)
    }

    pub fn north_east_one(self) -> (r: BitBoard)
        ensures
            r@ == north_east1(self@),
    {
        BitBoard((self.0 << 9) & 0xfefe_fefe_fefe_fefeu64)
    }

    pub fn south_east_one(self) -> (r: BitBoard)
        ensures
            r@ == south_east1(self@),
    {
        BitBoard((self.0 >> 7) & 0xfefe_fefe_fefe_fefeu64)
    }

    pub fn north_west_one(self) -> (r: BitBoard)
        ensures
            r@ == north_west1(self@),
    {
        BitBoard((self.0 << 7) & 0x7f7f_7f7f_7f7f_7f7fu64)
    }

    pub fn south_west_one(self) -> (r: BitBoard)
        ensures
            r@ == south_west1(self@),
    {
        BitBoard((self.0 >> 9) & 0x7f7f_7f7f_7f7f_7f7fu64)
    }

    /// Membership test for one square.
    pub fn get(&self, square: Square) -> (r: bool)
        ensures
            r == bit_at(self@, square@ as u64),
    {
        ((self.0 >> square.to_index()) & 1) == 1
    }

    /// The lowest or highest occupied square index.
    ///
    /// The set must not be empty; the result is the index of its lowest
    /// set bit, or of its highest when `reverse` holds.
    pub fn bit_scan(&self, reverse: bool) -> (r: u8)
        requires
            self@ != 0,
        ensures
            r < 64,
            !reverse ==> r == u64_trailing_zeros(self@),
            reverse ==> r == 63 - u64_leading_zeros(self@),
            bit_at(self@, r as u64),
            !reverse ==> forall|j: u64| j < r ==> !bit_at(self@, j),
            reverse ==> forall|j: u64| r < j < 64 ==> !bit_at(self@, j),
    {
        proof {
            vstd::std_specs::bits::axiom_u64_trailing_zeros(self@);
            vstd::std_specs::bits::axiom_u64_leading_zeros(self@);
            lemma_bit_test(self@, (u64_trailing_zeros(self@)) as u64);
            if u64_leading_zeros(self@) < 64 {
                lemma_bit_test(self@, (63 - u64_leading_zeros(self@)) as u64);
            }
        }
        if reverse {
            let lz = self.0.leading_zeros();
            63 - (lz as u8)
        } else {
            let tz = self.0.trailing_zeros();
            tz as u8
        }
    }

    /// The lowest occupied square; the set must not be empty.
    pub fn bit_scan_forward(&self) -> (r: Square)
        requires
            self@ != 0,
        ensures
            r@ == u64_trailing_zeros(self@),
            bit_at(self@, r@ as u64),
            forall|j: u64| j < r@ ==> !bit_at(self@, j),
    {
        Square::from_index(self.bit_scan(false))
    }

    /// The highest occupied square; the set must not be empty.
    pub fn bit_scan_reverse(&self) -> (r: Square)
        requires
            self@ != 0,
        ensures
            r@ == 63 - u64_leading_zeros(self@),
            bit_at(self@, r@ as u64),
            forall|j: u64| r@ < j < 64 ==> !bit_at(self@, j),
    {
        Square::from_index(self.bit_scan(true))
    }

    /// Removes and returns the lowest occupied square; the set must not
    /// be empty.
    pub fn pop_square(&mut self) -> (r: Square)
        requires
            old(self)@ != 0,
        ensures
            r@ == u64_trailing_zeros(old(self)@),
            bit_at(old(self)@, r@ as u64),
            final(self)@ == (old(self)@ ^ sq_bb(r@ as u64)),
            final(self)@ < old(self)@,
    {
        let square = self.bit_scan_forward();
        proof {
            lemma_clear_bit_shrinks(self@, square@ as u64);
        }
        self.0 = self.0 ^ (1u64 << square.to_index());
        square
    }
}

} // verus!
