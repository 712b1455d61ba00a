//! The board: eight overlapping bit sets of piece placement.
//!
//! `white` and `black` give each occupied square a side; the six kind
//! sets give it a piece kind.  A well-formed board keeps the two side
//! sets disjoint, the six kind sets pairwise disjoint, and their union
//! equal to the union of the side sets.  Boards are value types: a move
//! builds an edited copy and never touches the caller's board.

use vstd::prelude::*;
use vstd::std_specs::bits::{u64_leading_zeros, u64_trailing_zeros};
use crate::bitboard::{
    anti_diag_bb, bit_at, diag_bb, file_bb, king_bb, knight_bb, north_east1, north_west1, ray_bb,
    south_east1, south_west1, sq_bb, BitBoard,
};
use crate::direction::Direction;
use crate::file::File;
use crate::piece::Piece;
use crate::rank::Rank;
use crate::side::Side;
use crate::square::Square;

verus! {

broadcast use crate::square::lemma_square_bound;

/// The mathematical model of a board: the eight raw square sets.
pub struct BoardModel {
    pub black: u64,
    pub white: u64,
    pub kings: u64,
    pub queens: u64,
    pub rooks: u64,
    pub bishops: u64,
    pub knights: u64,
    pub pawns: u64,
}

/// The occupied squares.
pub open spec fn occ_bb(m: BoardModel) -> u64 {
    m.black | m.white
}

/// The squares held by one side.
pub open spec fn side_bits(m: BoardModel, side: Side) -> u64 {
    match side {
        Side::White => m.white,
        Side::Black => m.black,
    }
}

/// The squares held by one piece kind.
pub open spec fn kind_bits(m: BoardModel, piece: Piece) -> u64 {
    match piece {
        Piece::Pawn => m.pawns,
        Piece::Knight => m.knights,
        Piece::Bishop => m.bishops,
        Piece::Rook => m.rooks,
        Piece::Queen => m.queens,
        Piece::King => m.kings,
    }
}

/// The piece kind recorded at an occupied square, testing the kind sets
/// in a fixed order and falling through to king.
pub open spec fn spec_kind_at(m: BoardModel, i: u64) -> Piece {
    if bit_at(m.pawns, i) {
        Piece::Pawn
    } else if bit_at(m.knights, i) {
        Piece::Knight
    } else if bit_at(m.bishops, i) {
        Piece::Bishop
    } else if bit_at(m.rooks, i) {
        Piece::Rook
    } else if bit_at(m.queens, i) {
        Piece::Queen
    } else {
        Piece::King
    }
}

/// The side and piece at a square, or nothing for an empty square.
pub open spec fn spec_piece_at(m: BoardModel, i: u64) -> Option<(Side, Piece)> {
    if bit_at(m.white, i) {
        Some((Side::White, spec_kind_at(m, i)))
    } else if bit_at(m.black, i) {
        Some((Side::Black, spec_kind_at(m, i)))
    } else {
        None
    }
}

/// The ray attack set from square `i`: the ray in the given direction,
/// clipped at and including its first blocker.
pub open spec fn spec_ray_attacks(m: BoardModel, i: u64, direction: Direction) -> u64 {
    let ray = ray_bb(i, direction);
    let blockers = ray & occ_bb(m);
    if blockers == 0 {
        ray
    } else {
        let nearest = if direction.spec_positive() {
            u64_trailing_zeros(blockers) as u64
        } else {
            (63 - u64_leading_zeros(blockers)) as u64
        };
        ray ^ ray_bb(nearest, direction)
    }
}

pub open spec fn spec_diagonal_attacks(m: BoardModel, i: u64) -> u64 {
    spec_ray_attacks(m, i, Direction::NorthEast) | spec_ray_attacks(m, i, Direction::SouthWest)
}

pub open spec fn spec_anti_diagonal_attacks(m: BoardModel, i: u64) -> u64 {
    spec_ray_attacks(m, i, Direction::NorthWest) | spec_ray_attacks(m, i, Direction::SouthEast)
}

pub open spec fn spec_file_attacks(m: BoardModel, i: u64) -> u64 {
    spec_ray_attacks(m, i, Direction::North) | spec_ray_attacks(m, i, Direction::South)
}

pub open spec fn spec_rank_attacks(m: BoardModel, i: u64) -> u64 {
    spec_ray_attacks(m, i, Direction::East) | spec_ray_attacks(m, i, Direction::West)
}

pub open spec fn spec_rook_attacks(m: BoardModel, i: u64) -> u64 {
    spec_file_attacks(m, i) | spec_rank_attacks(m, i)
}

pub open spec fn spec_bishop_attacks(m: BoardModel, i: u64) -> u64 {
    spec_diagonal_attacks(m, i) | spec_anti_diagonal_attacks(m, i)
}

pub open spec fn spec_queen_attacks(m: BoardModel, i: u64) -> u64 {
    spec_rook_attacks(m, i) | spec_bishop_attacks(m, i)
}

/// True when some piece of `by_side` attacks square `i`.  Attacks are
/// computed from the target looking outward, which is symmetric for
/// every piece kind; for pawns the mirrored pawn attack mask serves.
pub open spec fn spec_is_attacked(m: BoardModel, i: u64, by_side: Side) -> bool {
    let target = sq_bb(i);
    let attack_pieces = side_bits(m, by_side);
    let pawn_attack_mask = match by_side {
        Side::White => south_east1(target) | south_west1(target),
        Side::Black => north_east1(target) | north_west1(target),
    };
    (pawn_attack_mask & (attack_pieces & m.pawns)) != 0 || (knight_bb(i) & (attack_pieces
        & m.knights)) != 0 || (king_bb(i) & (attack_pieces & m.kings)) != 0 || (spec_bishop_attacks(
        m,
        i,
    ) & (attack_pieces & (m.bishops | m.queens))) != 0 || (spec_rook_attacks(m, i) & (attack_pieces
        & (m.rooks | m.queens))) != 0
}

/// The king square of a side, as the lowest square of its king set.
pub open spec fn spec_king_square(m: BoardModel, side: Side) -> u64 {
    u64_trailing_zeros(side_bits(m, side) & m.kings) as u64
}

/// True when the king of `king_side` stands attacked by the other side.
pub open spec fn spec_is_king_attacked(m: BoardModel, king_side: Side) -> bool {
    spec_is_attacked(m, spec_king_square(m, king_side), king_side.spec_flip())
}

/// The board after placing a piece: the square is added to one side set
/// and one kind set.
pub open spec fn spec_set_piece(m: BoardModel, side: Side, piece: Piece, i: u64) -> BoardModel {
    let b = sq_bb(i);
    BoardModel {
        white: if side == Side::White {
            m.white | b
        } else {
            m.white
        },
        black: if side == Side::Black {
            m.black | b
        } else {
            m.black
        },
        pawns: if piece == Piece::Pawn {
            m.pawns | b
        } else {
            m.pawns
        },
        knights: if piece == Piece::Knight {
            m.knights | b
        } else {
            m.knights
        },
        bishops: if piece == Piece::Bishop {
            m.bishops | b
        } else {
            m.bishops
        },
        rooks: if piece == Piece::Rook {
            m.rooks | b
        } else {
            m.rooks
        },
        queens: if piece == Piece::Queen {
            m.queens | b
        } else {
            m.queens
        },
        kings: if piece == Piece::King {
            m.kings | b
        } else {
            m.kings
        },
    }
}

/// The board after clearing a square in all eight sets.
pub open spec fn spec_clear_piece(m: BoardModel, i: u64) -> BoardModel {
    let keep = !sq_bb(i);
    BoardModel {
        white: m.white & keep,
        black: m.black & keep,
        pawns: m.pawns & keep,
        knights: m.knights & keep,
        bishops: m.bishops & keep,
        rooks: m.rooks & keep,
        queens: m.queens & keep,
        kings: m.kings & keep,
    }
}

/// The union of the whole files named in the sequence.
pub open spec fn files_bb(files: Seq<File>) -> u64
    decreases files.len(),
{
    if files.len() == 0 {
        0u64
    } else {
        files_bb(files.drop_last()) | file_bb(files.last().spec_index() as u64)
    }
}

/// The pseudo-legal destination set of the piece standing at square `i`.
///
/// The castling-right flags and the open en-passant files describe the
/// position around the board; phase-two legality (king safety) is not
/// part of this set.
pub open spec fn spec_pseudo_legal_from(
    m: BoardModel,
    i: u64,
    king_castling_right: bool,
    queen_castling_right: bool,
    en_passant_files: Seq<File>,
) -> u64 {
    match spec_piece_at(m, i) {
        None => 0u64,
        Some((side, piece)) => {
            let not_own = !side_bits(m, side);
            match piece {
                Piece::Bishop => spec_bishop_attacks(m, i) & not_own,
                Piece::Rook => spec_rook_attacks(m, i) & not_own,
                Piece::Queen => spec_queen_attacks(m, i) & not_own,
                Piece::Knight => knight_bb(i) & not_own,
                Piece::King => spec_king_pseudo_legal(
                    m,
                    i,
                    side,
                    king_castling_right,
                    queen_castling_right,
                ) & not_own ,
                Piece::Pawn => spec_pawn_pseudo_legal(m, i, side, en_passant_files) & not_own,
            }
        },
    }
}

/// The king destination set: the neighbor mask, plus each castling
/// target when the matching right is held, the passage is free, and
/// neither the king square nor the passage squares stand attacked.
pub open spec fn spec_king_pseudo_legal(
    m: BoardModel,
    i: u64,
    side: Side,
    king_castling_right: bool,
    queen_castling_right: bool,
) -> u64 {
    let op_side = side.spec_flip();
    let not_occupied = !occ_bb(m);
    let attacked = spec_is_attacked(m, i, op_side);
    let king = sq_bb(i);
    let queen_path_safe = match side {
        Side::White => !spec_is_attacked(m, 2, op_side) && !spec_is_attacked(m, 3, op_side),
        Side::Black => !spec_is_attacked(m, 58, op_side) && !spec_is_attacked(m, 59, op_side),
    };
    let queen_path_clear = match side {
        Side::White => !bit_at(occ_bb(m), 1),
        Side::Black => !bit_at(occ_bb(m), 57),
    };
    let king_path_safe = match side {
        Side::White => !spec_is_attacked(m, 5, op_side) && !spec_is_attacked(m, 6, op_side),
        Side::Black => !spec_is_attacked(m, 61, op_side) && !spec_is_attacked(m, 62, op_side),
    };
    let castle_queen_side = if !attacked && queen_castling_right && queen_path_safe
        && queen_path_clear {
        crate::bitboard::west1(crate::bitboard::west1(king) & not_occupied) & not_occupied
            & 0x0404_0404_0404_0404u64
    } else {
        0u64
    };
    let castle_king_side = if !attacked && king_castling_right && king_path_safe {
        crate::bitboard::east1(crate::bitboard::east1(king) & not_occupied) & not_occupied
            & 0x4040_4040_4040_4040u64
    } else {
        0u64
    };
    king_bb(i) | castle_king_side | castle_queen_side
}

/// The pawn destination set: the single push to an empty square, the
/// double push over two empty squares from the initial rank, and the
/// diagonal attacks restricted to enemy pieces or open en-passant files.
pub open spec fn spec_pawn_pseudo_legal(
    m: BoardModel,
    i: u64,
    side: Side,
    en_passant_files: Seq<File>,
) -> u64 {
    let not_occupied = !occ_bb(m);
    match side {
        Side::White => {
            let pawn = m.white & sq_bb(i);
            let any_attacks = north_east1(pawn) | north_west1(pawn);
            let single_targets = crate::bitboard::north1(pawn) & not_occupied;
            let double_targets = crate::bitboard::north1(single_targets) & 0x0000_0000_ff00_0000u64
                & not_occupied;
            let passant_targets = 0x0000_ff00_0000_0000u64 & files_bb(en_passant_files);
            (any_attacks & (passant_targets | m.black)) | single_targets | double_targets
        },
        Side::Black => {
            let pawn = m.black & sq_bb(i);
            let any_attacks = south_east1(pawn) | south_west1(pawn);
            let single_targets = crate::bitboard::south1(pawn) & not_occupied;
            let double_targets = crate::bitboard::south1(single_targets) & 0x0000_00ff_0000_0000u64
                & not_occupied;
            let passant_targets = 0x0000_0000_00ff_0000u64 & files_bb(en_passant_files);
            (any_attacks & (passant_targets | m.white)) | single_targets | double_targets
        },
    }
}

/// The pieces standing on squares below `n`, in ascending square order,
/// each as its side, kind and square index.
pub open spec fn spec_piece_list(m: BoardModel, n: int) -> Seq<(Side, Piece, u8)>
    decreases n,
{
    if n <= 0 {
        Seq::empty()
    } else {
        let rest = spec_piece_list(m, n - 1);
        match spec_piece_at(m, (n - 1) as u64) {
            Some((side, piece)) => rest.push((side, piece, (n - 1) as u8)),
            None => rest,
        }
    }
}

/// The signed square code of `to_array`: zero for an empty square, the
/// piece code 1 through 6 for white, its negation for black.
pub open spec fn spec_square_code(m: BoardModel, i: u64) -> i8 {
    match spec_piece_at(m, i) {
        None => 0i8,
        Some((side, piece)) => {
            let code = (piece.spec_index() + 1) as i8;
            if side == Side::White {
                code
            } else {
                (-code) as i8
            }
        },
    }
}

#[derive(Copy, Clone, Debug)]
pub struct Board {
    black: BitBoard,
    white: BitBoard,
    kings: BitBoard,
    queens: BitBoard,
    rooks: BitBoard,
    bishops: BitBoard,
    knights: BitBoard,
    pawns: BitBoard,
}

impl View for Board {
    type V = BoardModel;

    closed spec fn view(&self) -> BoardModel {
        BoardModel {
            black: self.black@,
            white: self.white@,
            kings: self.kings@,
            queens: self.queens@,
            rooks: self.rooks@,
            bishops: self.bishops@,
            knights: self.knights@,
            pawns: self.pawns@,
        }
    }
}

impl Board {
    /// The board with no pieces.
    pub fn empty() -> (r: Board)
        ensures
            r@ == (BoardModel {
                black: 0u64,
                white: 0u64,
                kings: 0u64,
                queens: 0u64,
                rooks: 0u64,
                bishops: 0u64,
                knights: 0u64,
                pawns: 0u64,
            }),
    {
        Board {
            black: BitBoard::empty(),
            white: BitBoard::empty(),
            kings: BitBoard::empty(),
            queens: BitBoard::empty(),
            rooks: BitBoard::empty(),
            bishops: BitBoard::empty(),
            knights: BitBoard::empty(),
            pawns: BitBoard::empty(),
        }
    }

    /// The standard starting position.
    pub fn default() -> (r: Board)
        ensures
            r@ == (BoardModel {
                black: 0xffff_0000_0000_0000u64,
                white: 0x0000_0000_0000_ffffu64,
                kings: 0x1000_0000_0000_0010u64,
                queens: 0x0800_0000_0000_0008u64,
                rooks: 0x8100_0000_0000_0081u64,
                bishops: 0x2400_0000_0000_0024u64,
                knights: 0x4200_0000_0000_0042u64,
                pawns: 0x00ff_0000_0000_ff00u64,
            }),
    {
        Board {
            black: BitBoard::from_u64(0xffff_0000_0000_0000u64),
            white: BitBoard::from_u64(0x0000_0000_0000_ffffu64),
            kings: BitBoard::from_u64(0x1000_0000_0000_0010u64),
            queens: BitBoard::from_u64(0x0800_0000_0000_0008u64),
            rooks: BitBoard::from_u64(0x8100_0000_0000_0081u64),
            bishops: BitBoard::from_u64(0x2400_0000_0000_0024u64),
            knights: BitBoard::from_u64(0x4200_0000_0000_0042u64),
            pawns: BitBoard::from_u64(0x00ff_0000_0000_ff00u64),
        }
    }

    // Raw accessors for the eight sets.

    pub fn white_pieces(&self) -> (r: BitBoard)
        ensures
            r@ == self@.white,
    {
        self.white
    }

    pub fn black_pieces(&self) -> (r: BitBoard)
        ensures
            r@ == self@.black,
    {
        self.black
    }

    pub fn kings(&self) -> (r: BitBoard)
        ensures
            r@ == self@.kings,
    {
        self.kings
    }

    pub fn queens(&self) -> (r: BitBoard)
        ensures
            r@ == self@.queens,
    {
        self.queens
    }

    pub fn rooks(&self) -> (r: BitBoard)
        ensures
            r@ == self@.rooks,
    {
        self.rooks
    }

    pub fn bishops(&self) -> (r: BitBoard)
        ensures
            r@ == self@.bishops,
    {
        self.bishops
    }

    pub fn knights(&self) -> (r: BitBoard)
        ensures
            r@ == self@.knights,
    {
        self.knights
    }

    pub fn pawns(&self) -> (r: BitBoard)
        ensures
            r@ == self@.pawns,
    {
        self.pawns
    }

    /// The occupied squares.
    pub fn occupied(&self) -> (r: BitBoard)
        ensures
            r@ == occ_bb(self@),
    {
        self.black.union(self.white)
    }

    /// The squares held by one side.
    pub fn pieces_by_side(&self, side: Side) -> (r: BitBoard)
        ensures
            r@ == side_bits(self@, side),
    {
        match side {
            Side::White => self.white,
            Side::Black => self.black,
        }
    }

    /// The side and piece at a square, or nothing for an empty square.
    pub fn piece_at(&self, square: Square) -> (r: Option<(Side, Piece)>)
        ensures
            r == spec_piece_at(self@, square@ as u64),
    {
        let side = if self.white.get(square) {
            Side::White
        } else if self.black.get(square) {
            Side::Black
        } else {
            return None;
        };
        let piece = if self.pawns.get(square) {
            Piece::Pawn
        } else if self.knights.get(square) {
            Piece::Knight
        } else if self.bishops.get(square) {
            Piece::Bishop
        } else if self.rooks.get(square) {
            Piece::Rook
        } else if self.queens.get(square) {
            Piece::Queen
        } else {
            Piece::King
        };
        Some((side, piece))
    }

    /// True when a pawn of either side stands on the square.
    pub fn is_pawn(&self, square: Square) -> (r: bool)
        ensures
            r == bit_at(self@.pawns, square@ as u64),
    {
        proof {
            crate::bitboard::lemma_bit_mask_test(self@.pawns, square@ as u64);
        }
        self.pawns.intersect(BitBoard::square(square)).not_empty()
    }

    /// Places a piece: adds the square to one side set and one kind set.
    /// The square is expected to be empty; placing over an occupied
    /// square leaves overlapping sets behind.
    pub fn set_piece(&mut self, side: Side, piece: Piece, square: Square)
        ensures
            final(self)@ == spec_set_piece(old(self)@, side, piece, square@ as u64),
    {
        let bb = BitBoard::square(square);
        match side {
            Side::White => {
                self.white = self.white.union(bb);
            },
            Side::Black => {
                self.black = self.black.union(bb);
            },
        }
        match piece {
            Piece::Pawn => {
                self.pawns = self.pawns.union(bb);
            },
            Piece::Knight => {
                self.knights = self.knights.union(bb);
            },
            Piece::Bishop => {
                self.bishops = self.bishops.union(bb);
            },
            Piece::Rook => {
                self.rooks = self.rooks.union(bb);
            },
            Piece::Queen => {
                self.queens = self.queens.union(bb);
            },
            Piece::King => {
                self.kings = self.kings.union(bb);
            },
        }
    }

    /// Clears a square in all eight sets.
    pub fn clear_piece(&mut self, square: Square)
        ensures
            final(self)@ == spec_clear_piece(old(self)@, square@ as u64),
    {
        let keep = BitBoard::square(square).complement();
        self.black = self.black.intersect(keep);
        self.white = self.white.intersect(keep);
        self.pawns = self.pawns.intersect(keep);
        self.knights = self.knights.intersect(keep);
        self.bishops = self.bishops.intersect(keep);
        self.rooks = self.rooks.intersect(keep);
        self.queens = self.queens.intersect(keep);
        self.kings = self.kings.intersect(keep);
    }

    /// The ray attack set from a square: the ray clipped at and
    /// including its first blocker.
    pub fn ray_attacks(&self, from: Square, direction: Direction) -> (r: BitBoard)
        ensures
            r@ == spec_ray_attacks(self@, from@ as u64, direction),
    {
        let mut attacks = BitBoard::ray_mask(from, direction);
        let blocker = attacks.intersect(self.occupied());
        if blocker.not_empty() {
            let nearest = blocker.bit_scan(direction.negative());
            attacks = attacks.xor(BitBoard::ray_mask(Square::from_index(nearest), direction));
        }
        attacks
    }

    pub fn diagonal_attacks(&self, from: Square) -> (r: BitBoard)
        ensures
            r@ == spec_diagonal_attacks(self@, from@ as u64),
    {
        self.ray_attacks(from, Direction::NorthEast).union(
            self.ray_attacks(from, Direction::SouthWest),
        )
    }

    pub fn anti_diagonal_attacks(&self, from: Square) -> (r: BitBoard)
        ensures
            r@ == spec_anti_diagonal_attacks(self@, from@ as u64),
    {
        self.ray_attacks(from, Direction::NorthWest).union(
            self.ray_attacks(from, Direction::SouthEast),
        )
    }

    pub fn file_attacks(&self, from: Square) -> (r: BitBoard)
        ensures
            r@ == spec_file_attacks(self@, from@ as u64),
    {
        self.ray_attacks(from, Direction::North).union(self.ray_attacks(from, Direction::South))
    }

    pub fn rank_attacks(&self, from: Square) -> (r: BitBoard)
        ensures
            r@ == spec_rank_attacks(self@, from@ as u64),
    {
        self.ray_attacks(from, Direction::East).union(self.ray_attacks(from, Direction::West))
    }

    pub fn rook_attacks(&self, from: Square) -> (r: BitBoard)
        ensures
            r@ == spec_rook_attacks(self@, from@ as u64),
    {
        self.file_attacks(from).union(self.rank_attacks(from))
    }

    pub fn bishop_attacks(&self, from: Square) -> (r: BitBoard)
        ensures
            r@ == spec_bishop_attacks(self@, from@ as u64),
    {
        self.diagonal_attacks(from).union(self.anti_diagonal_attacks(from))
    }

    pub fn queen_attacks(&self, from: Square) -> (r: BitBoard)
        ensures
            r@ == spec_queen_attacks(self@, from@ as u64),
    {
        self.rook_attacks(from).union(self.bishop_attacks(from))
    }

    /// True when some piece of `by_side` attacks the square.
    pub fn is_attacked(&self, square: Square, by_side: Side) -> (r: bool)
        ensures
            r == spec_is_attacked(self@, square@ as u64, by_side),
    {
        let bitboard = BitBoard::square(square);
        let attack_pieces = self.pieces_by_side(by_side);
        let pawn_attack_mask = match by_side {
            Side::White => bitboard.black_pawn_any_attacks_mask(),
            Side::Black => bitboard.white_pawn_any_attacks_mask(),
        };
        let pawns = attack_pieces.intersect(self.pawns);
        if pawn_attack_mask.intersect(pawns).not_empty() {
            return true;
        }
        let knights = attack_pieces.intersect(self.knights);
        if BitBoard::knight_attacks_mask(square).intersect(knights).not_empty() {
            return true;
        }
        let kings = attack_pieces.intersect(self.kings);
        if BitBoard::king_attacks_mask(square).intersect(kings).not_empty() {
            return true;
        }
        let bishops_queens = attack_pieces.intersect(self.bishops.union(self.queens));
        if self.bishop_attacks(square).intersect(bishops_queens).not_empty() {
            return true;
        }
        let rooks_queens = attack_pieces.intersect(self.rooks.union(self.queens));
        if self.rook_attacks(square).intersect(rooks_queens).not_empty() {
            return true;
        }
        false
    }

    /// The king square of a side, when its king set is not empty.
    fn king_square(&self, side: Side) -> (r: Option<Square>)
        ensures
            r is Some <==> (side_bits(self@, side) & self@.kings) != 0,
            r matches Some(sq) ==> sq@ == spec_king_square(self@, side),
    {
        let mut bb = self.pieces_by_side(side).intersect(self.kings);
        if bb.is_empty() {
            return None;
        }
        Some(bb.pop_square())
    }

    /// True when the side still has a king on the board.
    pub fn has_king(&self, side: Side) -> (r: bool)
        ensures
            r == ((side_bits(self@, side) & self@.kings) != 0),
    {
        match self.king_square(side) {
            Some(_) => true,
            None => false,
        }
    }

    /// True when both kings are on the board.
    pub fn has_both_kings(&self) -> (r: bool)
        ensures
            r == ((self@.white & self@.kings) != 0 && (self@.black & self@.kings) != 0),
    {
        if self.king_square(Side::White).is_none() {
            return false;
        }
        if self.king_square(Side::Black).is_none() {
            return false;
        }
        true
    }

    /// True when the king of `king_side` stands attacked by the other
    /// side.  The side must still have a king on the board.
    pub fn is_king_attacked(&self, king_side: Side) -> (r: bool)
        requires
            (side_bits(self@, king_side) & self@.kings) != 0,
        ensures
            r == spec_is_king_attacked(self@, king_side),
    {
        let square = match self.king_square(king_side) {
            Some(sq) => sq,
            None => {
                proof {
                    assert(false);
                }
                Square::from_index(0)
            },
        };
        self.is_attacked(square, king_side.flip())
    }

    /// Every piece on the board with its square, in ascending square
    /// order.
    pub fn pieces(&self) -> (r: Vec<(Side, Piece, Square)>)
        ensures
            r@.map_values(|t: (Side, Piece, Square)| (t.0, t.1, t.2@)) == spec_piece_list(
                self@,
                64,
            ),
    {
        let mut pieces: Vec<(Side, Piece, Square)> = Vec::new();
        let occupied = self.occupied();
        let mut index: u8 = 0;
        while index < 64
            invariant
                index <= 64,
                occupied@ == occ_bb(self@),
                pieces@.map_values(|t: (Side, Piece, Square)| (t.0, t.1, t.2@))
                    == spec_piece_list(self@, index as int),
            decreases 64 - index,
        {
            let square = Square::from_index(index);
            let ghost previous = pieces@.map_values(|t: (Side, Piece, Square)| (t.0, t.1, t.2@));
            proof {
                crate::bitboard::lemma_bit_or(self@.black, self@.white, index as u64);
            }
            if occupied.get(square) {
                match self.piece_at(square) {
                    Some((side, piece)) => {
                        pieces.push((side, piece, square));
                        proof {
                            assert(pieces@.map_values(
                                |t: (Side, Piece, Square)| (t.0, t.1, t.2@),
                            ) =~= previous.push((side, piece, index)));
                        }
                    },
                    None => {
                        proof {
                            assert(false);
                        }
                    },
                }
            }
            index = index + 1;
        }
        pieces
    }

    /// The pseudo-legal destination set of the piece standing at `from`.
    pub fn pseudo_legal_moves_from(
        &self,
        from: Square,
        king_castling_right: bool,
        queen_castling_right: bool,
        en_passant_files: Vec<File>,
    ) -> (r: BitBoard)
        ensures
            r@ == spec_pseudo_legal_from(
                self@,
                from@ as u64,
                king_castling_right,
                queen_castling_right,
                en_passant_files@,
            ),
    {
        match self.piece_at(from) {
            None => BitBoard::empty(),
            Some((side, piece)) => {
                let not_own_pieces = self.pieces_by_side(side).complement();
                match piece {
                    Piece::Bishop => self.bishop_attacks(from).intersect(not_own_pieces),
                    Piece::Rook => self.rook_attacks(from).intersect(not_own_pieces),
                    Piece::Queen => self.queen_attacks(from).intersect(not_own_pieces),
                    Piece::Knight => BitBoard::knight_attacks_mask(from).intersect(not_own_pieces),
                    Piece::King => self.king_pseudo_legal(
                        from,
                        side,
                        king_castling_right,
                        queen_castling_right,
                    ).intersect(not_own_pieces),
                    Piece::Pawn => self.pawn_pseudo_legal(from, side, &en_passant_files).intersect(
                        not_own_pieces,
                    ),
                }
            },
        }
    }

    fn king_pseudo_legal(
        &self,
        from: Square,
        side: Side,
        king_castling_right: bool,
        queen_castling_right: bool,
    ) -> (r: BitBoard)
        ensures
            r@ == spec_king_pseudo_legal(
                self@,
                from@ as u64,
                side,
                king_castling_right,
                queen_castling_right,
            ),
    {
        let op_side = side.flip();
        let not_occupied = self.occupied().complement();
        let is_attacked = self.is_attacked(from, op_side);
        let king = BitBoard::square(from);

        let mut castling_queen_side = BitBoard::empty();
        let mut castling_king_side = BitBoard::empty();

        if !is_attacked {
            let queen_path_safe = match side {
                Side::White => !self.is_attacked(Square::from_index(2), op_side)
                    && !self.is_attacked(Square::from_index(3), op_side),
                Side::Black => !self.is_attacked(Square::from_index(58), op_side)
                    && !self.is_attacked(Square::from_index(59), op_side),
            };
            let queen_path_clear = match side {
                Side::White => !self.occupied().get(Square::from_index(1)),
                Side::Black => !self.occupied().get(Square::from_index(57)),
            };
            if queen_castling_right && queen_path_safe && queen_path_clear {
                castling_queen_side = king.west_one().intersect(not_occupied).west_one().intersect(
                    not_occupied,
                ).intersect(BitBoard::from_u64(0x0404_0404_0404_0404u64));
            }
            let king_path_safe = match side {
                Side::White => !self.is_attacked(Square::from_index(5), op_side)
                    && !self.is_attacked(Square::from_index(6), op_side),
                Side::Black => !self.is_attacked(Square::from_index(61), op_side)
                    && !self.is_attacked(Square::from_index(62), op_side),
            };
            if king_castling_right && king_path_safe {
                castling_king_side = king.east_one().intersect(not_occupied).east_one().intersect(
                    not_occupied,
                ).intersect(BitBoard::from_u64(0x4040_4040_4040_4040u64));
            }
        }
        BitBoard::king_attacks_mask(from).union(castling_king_side).union(castling_queen_side)
    }

    fn pawn_pseudo_legal(&self, from: Square, side: Side, en_passant_files: &Vec<File>) -> (r:
        BitBoard)
        ensures
            r@ == spec_pawn_pseudo_legal(self@, from@ as u64, side, en_passant_files@),
    {
        let not_occupied = self.occupied().complement();
        let mut passant_files = BitBoard::empty();
        let mut fi: usize = 0;
        while fi < en_passant_files.len()
            invariant
                fi <= en_passant_files@.len(),
                passant_files@ == files_bb(en_passant_files@.take(fi as int)),
            decreases en_passant_files@.len() - fi,
        {
            proof {
                assert(en_passant_files@.take(fi + 1).drop_last() =~= en_passant_files@.take(
                    fi as int,
                ));
            }
            passant_files = passant_files.union(BitBoard::file(en_passant_files[fi]));
            fi = fi + 1;
        }
        proof {
            assert(en_passant_files@.take(en_passant_files@.len() as int) =~= en_passant_files@);
        }
        match side {
            Side::White => {
                let pawn = self.white.intersect(BitBoard::square(from));
                let any_attacks = pawn.white_pawn_any_attacks_mask();
                let single_targets = pawn.north_one().intersect(not_occupied);
                let double_targets = single_targets.north_one().intersect(
                    BitBoard::from_u64(0x0000_0000_ff00_0000u64),
                ).intersect(not_occupied);
                let passant_targets = BitBoard::from_u64(0x0000_ff00_0000_0000u64).intersect(
                    passant_files,
                );
                any_attacks.intersect(passant_targets.union(self.black)).union(
                    single_targets,
                ).union(double_targets)
            },
            Side::Black => {
                let pawn = self.black.intersect(BitBoard::square(from));
                let any_attacks = pawn.black_pawn_any_attacks_mask();
                let single_targets = pawn.south_one().intersect(not_occupied);
                let double_targets = single_targets.south_one().intersect(
                    BitBoard::from_u64(0x0000_00ff_0000_0000u64),
                ).intersect(not_occupied);
                let passant_targets = BitBoard::from_u64(0x0000_0000_00ff_0000u64).intersect(
                    passant_files,
                );
                any_attacks.intersect(passant_targets.union(self.white)).union(
                    single_targets,
                ).union(double_targets)
            },
        }
    }

    /// The position as 64 signed square codes in square-index order:
    /// zero for empty, piece codes 1 through 6 for white pieces, their
    /// negations for black.
    pub fn to_array(&self) -> (r: Vec<i8>)
        ensures
            r@.len() == 64,
            forall|i: u64| i < 64 ==> #[trigger] r@[i as int] == spec_square_code(self@, i),
    {
        let mut codes: Vec<i8> = Vec::new();
        let mut index: u8 = 0;
        while index < 64
            invariant
                index <= 64,
                codes@.len() == index,
                forall|i: u64| i < index ==> #[trigger] codes@[i as int] == spec_square_code(self@, i),
            decreases 64 - index,
        {
            let square = Square::from_index(index);
            let code: i8 = match self.piece_at(square) {
                None => 0,
                Some((side, piece)) => {
                    let kind_code = (piece.to_index() + 1) as i8;
                    match side {
                        Side::White => kind_code,
                        Side::Black => -kind_code,
                    }
                },
            };
            codes.push(code);
            index = index + 1;
        }
        codes
    }
}

} // verus!
