//! A board square, numbered 0 through 63 in rank-major order: a1 is 0,
//! b1 is 1, and h8 is 63.

use vstd::prelude::*;
use crate::bitboard::{sq_bb, BitBoard};
use crate::file::File;
use crate::rank::Rank;

verus! {

#[derive(Copy, Clone, Debug, PartialEq, Eq, Structural)]
pub struct Square(u8);

impl View for Square {
    type V = u8;

    closed spec fn view(&self) -> u8 {
        (self.0 % 64) as u8
    }
}

/// A square's index is always on the board.
pub broadcast proof fn lemma_square_bound(sq: Square)
    ensures
        #[trigger] sq@ < 64,
{
}

impl Square {
    #[verifier::type_invariant]
    closed spec fn type_inv(self) -> bool {
        self.0 < 64
    }

    /// The square on the given file and rank.
    pub fn new(file: File, rank: Rank) -> (r: Square)
        ensures
            r@ == 8 * rank.spec_index() + file.spec_index(),
    {
        Square(8 * rank.to_index() + file.to_index())
    }

    /// The square with the given index.
    ///
    /// The index of a square on file f and rank k (both numbered from 0)
    /// is 8 * k + f.
    pub fn from_index(index: u8) -> (r: Square)
        requires
            index < 64,
        ensures
            r@ == index,
    {
        Square(index)
    }

    pub fn to_index(&self) -> (r: u8)
        ensures
            r == self@,
            r < 64,
    {
        proof {
            use_type_invariant(self);
        }
        self.0
    }

    /// The set holding exactly this square.
    pub fn to_bitboard(&self) -> (r: BitBoard)
        ensures
            r@ == sq_bb(self@ as u64),
    {
        BitBoard::square(*self)
    }

    /// The file the square stands on.
    pub fn file(&self) -> (r: File)
        ensures
            r.spec_index() == self@ % 8,
    {
        proof {
            use_type_invariant(self);
        }
        match File::from_index(self.0 % 8) {
            Ok(f) => f,
            Err(_) => {
                proof {
                    assert(false);
                }
                File::A
            },
        }
    }

    /// The rank the square stands on.
    pub fn rank(&self) -> (r: Rank)
        ensures
            r.spec_index() == self@ / 8,
    {
        proof {
            use_type_invariant(self);
        }
        match Rank::from_index(self.0 / 8) {
            Ok(k) => k,
            Err(_) => {
                proof {
                    assert(false);
                }
                Rank::_1
            },
        }
    }
}

} // verus!
