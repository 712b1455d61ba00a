//! The packed position flags: side to move, castling rights, and open
//! en-passant files.
//!
//! Bit layout of the underlying word: bits 0 through 7 mark an open
//! en-passant file per board file, bits 8 and 9 the white queen-side
//! and king-side castling rights, bits 10 and 11 the black ones, and
//! bit 12 holds the side to move (set for white).

use vstd::prelude::*;
use crate::file::File;
use crate::side::Side;

verus! {

/// True when bit `b` of the flag word is set.
pub open spec fn st_bit(s: u16, b: u16) -> bool {
    (s >> b) & 1 == 1
}

/// The flag word with bit `b` forced to `value`.
pub open spec fn st_with_bit(s: u16, b: u16, value: bool) -> u16 {
    if value {
        s | (1u16 << b)
    } else {
        s & !(1u16 << b)
    }
}

/// Forcing one flag bit leaves every other bit alone.
pub broadcast proof fn lemma_st_with_bit(s: u16, b: u16, v: bool, c: u16)
    by (bit_vector)
    ensures
        b < 16 && c < 16 ==> #[trigger] st_bit(st_with_bit(s, b, v), c) == (if b == c {
            v
        } else {
            st_bit(s, c)
        }),
{
}

/// Masking the flag word to its high byte keeps exactly the flag bits
/// from eight up.
pub broadcast proof fn lemma_st_mask_high(s: u16, c: u16)
    by (bit_vector)
    ensures
        c < 16 ==> #[trigger] st_bit((s & 0xff00) as u16, c) == (st_bit(s, c) && c >= 8),
{
}

/// The queen-side castling right bit of a side.
pub open spec fn queen_side_bit(side: Side) -> u16 {
    match side {
        Side::White => 8,
        Side::Black => 10,
    }
}

/// The king-side castling right bit of a side.
pub open spec fn king_side_bit(side: Side) -> u16 {
    match side {
        Side::White => 9,
        Side::Black => 11,
    }
}

/// The side to move recorded in the flag word.
pub open spec fn spec_turn(s: u16) -> Side {
    if st_bit(s, 12) {
        Side::White
    } else {
        Side::Black
    }
}

/// The file with the given index; indices eight and up fold back like
/// the three low bits.
pub open spec fn spec_file_of(i: int) -> File {
    if i % 8 == 0 {
        File::A
    } else if i % 8 == 1 {
        File::B
    } else if i % 8 == 2 {
        File::C
    } else if i % 8 == 3 {
        File::D
    } else if i % 8 == 4 {
        File::E
    } else if i % 8 == 5 {
        File::F
    } else if i % 8 == 6 {
        File::G
    } else {
        File::H
    }
}

/// The open en-passant files below file index `n`, in ascending order.
pub open spec fn spec_open_files(s: u16, n: int) -> Seq<File>
    decreases n,
{
    if n <= 0 {
        Seq::empty()
    } else {
        let rest = spec_open_files(s, n - 1);
        if st_bit(s, (n - 1) as u16) {
            rest.push(spec_file_of(n - 1))
        } else {
            rest
        }
    }
}

#[derive(Copy, Clone, Debug, PartialEq, Eq, Structural)]
pub struct State(u16);

impl View for State {
    type V = u16;

    closed spec fn view(&self) -> u16 {
        self.0
    }
}

impl State {
    /// The all-clear flag word: black to move, no rights, no open files.
    pub fn zero() -> (r: State)
        ensures
            r@ == 0u16,
    {
        State(0)
    }

    pub fn queen_side_castling_right(&self, side: Side) -> (r: bool)
        ensures
            r == st_bit(self@, queen_side_bit(side)),
    {
        let bit: u16 = match side {
            Side::White => 8,
            Side::Black => 10,
        };
        ((self.0 >> bit) & 1) == 1
    }

    pub fn set_queen_side_castling_right(&mut self, side: Side, value: bool)
        ensures
            final(self)@ == st_with_bit(old(self)@, queen_side_bit(side), value),
    {
        let bit: u16 = match side {
            Side::White => 8,
            Side::Black => 10,
        };
        self.set_bit(bit, value);
    }

    pub fn king_side_castling_right(&self, side: Side) -> (r: bool)
        ensures
            r == st_bit(self@, king_side_bit(side)),
    {
        let bit: u16 = match side {
            Side::White => 9,
            Side::Black => 11,
        };
        ((self.0 >> bit) & 1) == 1
    }

    pub fn set_king_side_castling_right(&mut self, side: Side, value: bool)
        ensures
            final(self)@ == st_with_bit(old(self)@, king_side_bit(side), value),
    {
        let bit: u16 = match side {
            Side::White => 9,
            Side::Black => 11,
        };
        self.set_bit(bit, value);
    }

    pub fn en_passant_open(&self, file: File) -> (r: bool)
        ensures
            r == st_bit(self@, file.spec_index() as u16),
    {
        ((self.0 >> (file.to_index() as u16)) & 1) == 1
    }

    pub fn set_en_passant_open(&mut self, file: File, value: bool)
        ensures
            final(self)@ == st_with_bit(old(self)@, file.spec_index() as u16, value),
    {
        self.set_bit(file.to_index() as u16, value);
    }

    /// Closes every open en-passant file at once.
    pub fn reset_en_passant_open_files(&mut self)
        ensures
            final(self)@ == (old(self)@ & 0xff00u16),
    {
        self.0 = self.0 & 0xff00;
    }

    /// The open en-passant files, in ascending file order.
    pub fn en_passant_open_files(&self) -> (r: Vec<File>)
        ensures
            r@ == spec_open_files(self@, 8),
    {
        let mut files: Vec<File> = Vec::new();
        let mut index: u8 = 0;
        while index < 8
            invariant
                index <= 8,
                files@ == spec_open_files(self@, index as int),
            decreases 8 - index,
        {
            if ((self.0 >> (index as u16)) & 1) == 1 {
                match File::from_index(index) {
                    Ok(file) => {
                        files.push(file);
                    },
                    Err(_) => {
                        proof {
                            assert(false);
                        }
                    },
                }
            }
            index = index + 1;
        }
        files
    }

    pub fn next_turn_side(&self) -> (r: Side)
        ensures
            r == spec_turn(self@),
    {
        if ((self.0 >> 12) & 1) == 1 {
            Side::White
        } else {
            Side::Black
        }
    }

    pub fn set_next_turn_side(&mut self, side: Side)
        ensures
            final(self)@ == st_with_bit(old(self)@, 12, side == Side::White),
    {
        let value = match side {
            Side::White => true,
            Side::Black => false,
        };
        self.set_bit(12, value);
    }

    /// The raw flag word.
    pub fn to_bits(&self) -> (r: u16)
        ensures
            r == self@,
    {
        self.0
    }

    fn set_bit(&mut self, bit: u16, value: bool)
        requires
            bit < 16,
        ensures
            final(self)@ == st_with_bit(old(self)@, bit, value),
    {
        if value {
            self.0 = self.0 | (1u16 << bit);
        } else {
            self.0 = self.0 & !(1u16 << bit);
        }
    }
}

} // verus!
