//! Raw packed move forms that carry an uninterpreted flag nibble
//! instead of a typed promotion piece.

use vstd::prelude::*;
use crate::square::Square;

verus! {

broadcast use crate::square::lemma_square_bound;

/// A promotion code: zero for none, then knight 1, bishop 2, rook 3,
/// queen 4.
#[derive(Copy, Clone, Debug, PartialEq, Eq, Structural)]
pub struct Promotion(pub u8);

/// The model of a raw packed move: two square indices and a flag
/// nibble.
pub struct PlyModel {
    pub from: u8,
    pub to: u8,
    pub flags: u8,
}

/// The packed form of a raw move.
pub open spec fn spec_ply_encode(m: PlyModel) -> u16 {
    ((((m.flags & 0x0f) as u16) << 12) | (((m.from & 0x3f) as u16) << 6) | ((m.to
        & 0x3f) as u16)) as u16
}

/// The raw move held in a packed word.
pub open spec fn spec_ply_decode(encoded: u16) -> PlyModel {
    PlyModel {
        from: ((encoded >> 6) & 0x3f) as u8,
        to: (encoded & 0x3f) as u8,
        flags: ((encoded >> 12) & 0x0f) as u8,
    }
}

/// A half-move with a typed promotion-code wrapper.
#[derive(Copy, Clone, Debug, PartialEq, Eq, Structural)]
pub struct Ply {
    from: Square,
    to: Square,
    promotion: Promotion,
}

impl View for Ply {
    type V = PlyModel;

    closed spec fn view(&self) -> PlyModel {
        PlyModel { from: self.from@, to: self.to@, flags: self.promotion.0 }
    }
}

/// The six-bit fields of a packed move stay on the board, and the flag
/// nibble stays below sixteen.
proof fn lemma_ply_field_bounds(e: u16)
    by (bit_vector)
    ensures
        ((e >> 6) & 0x3f) < 64,
        (e & 0x3f) < 64,
        ((e >> 12) & 0x0f) < 16,
{
}

impl Ply {
    pub fn new(from: Square, to: Square, promotion: Promotion) -> (r: Ply)
        ensures
            r@ == (PlyModel { from: from@, to: to@, flags: promotion.0 }),
    {
        Ply { from, to, promotion }
    }

    pub fn from(&self) -> (r: Square)
        ensures
            r@ == self@.from,
    {
        self.from
    }

    pub fn to(&self) -> (r: Square)
        ensures
            r@ == self@.to,
    {
        self.to
    }

    pub fn promotion(&self) -> (r: Promotion)
        ensures
            r.0 == self@.flags,
    {
        self.promotion
    }

    pub fn decode(encoded: u16) -> (r: Ply)
        ensures
            r@ == spec_ply_decode(encoded),
    {
        proof {
            lemma_ply_field_bounds(encoded);
        }
        let flags = Promotion(((encoded >> 12) & 0x0f) as u8);
        let from = Square::from_index(((encoded >> 6) & 0x3f) as u8);
        let to = Square::from_index((encoded & 0x3f) as u8);
        Ply { from, to, promotion: flags }
    }

    pub fn encode(&self) -> (r: u16)
        ensures
            r == spec_ply_encode(self@),
    {
        (((self.promotion.0 & 0x0f) as u16) << 12) | (((self.from.to_index() & 0x3f) as u16) << 6)
            | ((self.to.to_index() & 0x3f) as u16)
    }
}

/// A half-move with a bare flag byte.
#[derive(Copy, Clone, Debug, PartialEq, Eq, Structural)]
pub struct Move {
    from: Square,
    to: Square,
    flags: u8,
}

impl View for Move {
    type V = PlyModel;

    closed spec fn view(&self) -> PlyModel {
        PlyModel { from: self.from@, to: self.to@, flags: self.flags }
    }
}

impl Move {
    pub fn new(from: Square, to: Square, flags: u8) -> (r: Move)
        ensures
            r@ == (PlyModel { from: from@, to: to@, flags }),
    {
        Move { from, to, flags }
    }

    pub fn from(&self) -> (r: Square)
        ensures
            r@ == self@.from,
    {
        self.from
    }

    pub fn to(&self) -> (r: Square)
        ensures
            r@ == self@.to,
    {
        self.to
    }

    pub fn flags(&self) -> (r: u8)
        ensures
            r == self@.flags,
    {
        self.flags
    }

    pub fn decode(encoded: u16) -> (r: Move)
        ensures
            r@ == spec_ply_decode(encoded),
    {
        proof {
            lemma_ply_field_bounds(encoded);
        }
        let flags = ((encoded >> 12) & 0x0f) as u8;
        let from = Square::from_index(((encoded >> 6) & 0x3f) as u8);
        let to = Square::from_index((encoded & 0x3f) as u8);
        Move { from, to, flags }
    }

    pub fn encode(&self) -> (r: u16)
        ensures
            r == spec_ply_encode(self@),
    {
        (((self.flags & 0x0f) as u16) << 12) | (((self.from.to_index() & 0x3f) as u16) << 6) | ((
        self.to.to_index() & 0x3f) as u16)
    }
}

} // verus!
