//! Moves: an origin square, a destination square, and an optional
//! promotion piece, with the packed 16-bit binary form and the 4-to-5
//! character text form.
//!
//! The packed form holds the promotion code in the top four bits
//! (knight 1, bishop 2, rook 3, queen 4; zero for none), the origin
//! index in the next six, and the destination index in the low six.

use vstd::prelude::*;
use vstd::string::StrSliceExecFns;
use crate::common::{Error, Result};
use crate::file::File;
use crate::piece::Piece;
use crate::rank::Rank;
use crate::square::Square;

verus! {

broadcast use crate::square::lemma_square_bound;

/// The mathematical model of a move.
pub struct MovModel {
    pub from: u8,
    pub to: u8,
    pub promotion: Option<Piece>,
}

/// The packed form of a move model.
pub open spec fn spec_encode(m: MovModel) -> u16 {
    let code: u16 = match m.promotion {
        Some(piece) => piece.spec_index() as u16,
        None => 0,
    };
    (((code & 0x0f) << 12) | (((m.from & 0x3f) as u16) << 6) | ((m.to & 0x3f) as u16)) as u16
}

/// The move encoded in a packed word, or an error when the promotion
/// nibble names no promotion piece.
pub open spec fn spec_decode(encoded: u16) -> Result<MovModel> {
    let code = (encoded >> 12) & 0x0f;
    let from = ((encoded >> 6) & 0x3f) as u8;
    let to = (encoded & 0x3f) as u8;
    if code == 0 {
        Ok(MovModel { from, to, promotion: None })
    } else if code == 1 {
        Ok(MovModel { from, to, promotion: Some(Piece::Knight) })
    } else if code == 2 {
        Ok(MovModel { from, to, promotion: Some(Piece::Bishop) })
    } else if code == 3 {
        Ok(MovModel { from, to, promotion: Some(Piece::Rook) })
    } else if code == 4 {
        Ok(MovModel { from, to, promotion: Some(Piece::Queen) })
    } else {
        Err(Error::InvalidArgument)
    }
}

/// The move named by 4 or 5 text characters: origin file and rank,
/// destination file and rank, and an optional promotion letter.
pub open spec fn spec_parse_mov(s: Seq<char>) -> Result<MovModel> {
    if s.len() < 4 {
        Err(Error::InvalidArgument)
    } else {
        match (File::spec_from_char(s[0]), Rank::spec_from_char(s[1])) {
            (Ok(ff), Ok(fr)) => match (File::spec_from_char(s[2]), Rank::spec_from_char(s[3])) {
                (Ok(tf), Ok(tr)) => {
                    let from = (8 * fr.spec_index() + ff.spec_index()) as u8;
                    let to = (8 * tr.spec_index() + tf.spec_index()) as u8;
                    if s.len() >= 5 {
                        match Piece::spec_from_char(s[4]) {
                            Ok(piece) => Ok(MovModel { from, to, promotion: Some(piece) }),
                            Err(e) => Err(e),
                        }
                    } else {
                        Ok(MovModel { from, to, promotion: None })
                    }
                },
                _ => Err(Error::InvalidArgument),
            },
            _ => Err(Error::InvalidArgument),
        }
    }
}

#[derive(Copy, Clone, Debug, PartialEq, Eq, Structural)]
pub struct Mov {
    from: Square,
    to: Square,
    promotion: Option<Piece>,
}

impl View for Mov {
    type V = MovModel;

    closed spec fn view(&self) -> MovModel {
        MovModel { from: self.from@, to: self.to@, promotion: self.promotion }
    }
}

/// A move's squares are always on the board.
pub broadcast proof fn lemma_mov_bounds(mov: Mov)
    ensures
        (#[trigger] mov@).from < 64,
        mov@.to < 64,
{
    broadcast use crate::square::lemma_square_bound;

}

impl Mov {
    pub fn new(from: Square, to: Square, promotion: Option<Piece>) -> (r: Mov)
        ensures
            r@ == (MovModel { from: from@, to: to@, promotion }),
    {
        Mov { from, to, promotion }
    }

    pub fn from(&self) -> (r: Square)
        ensures
            r@ == self@.from,
    {
        self.from
    }

    pub fn to(&self) -> (r: Square)
        ensures
            r@ == self@.to,
    {
        self.to
    }

    pub fn promotion(&self) -> (r: Option<Piece>)
        ensures
            r == self@.promotion,
    {
        self.promotion
    }

    /// The packed 16-bit form of the move.
    pub fn encode(&self) -> (r: u16)
        ensures
            r == spec_encode(self@),
    {
        let code: u8 = match self.promotion {
            Some(piece) => piece.to_index(),
            None => 0,
        };
        (((code & 0x0f) as u16) << 12) | (((self.from.to_index() & 0x3f) as u16) << 6) | ((
        self.to.to_index() & 0x3f) as u16)
    }

    /// The move held in a packed 16-bit word.
    pub fn decode(encoded: u16) -> (r: Result<Mov>)
        ensures
            (r matches Ok(m) ==> (spec_decode(encoded) matches Ok(mm) && m@ == mm)),
            (r matches Err(e) ==> spec_decode(encoded) == Result::<MovModel>::Err(e)),
    {
        proof {
            lemma_mov_field_bounds(encoded);
        }
        let code = ((encoded >> 12) & 0x0f) as u8;
        let from = Square::from_index(((encoded >> 6) & 0x3f) as u8);
        let to = Square::from_index((encoded & 0x3f) as u8);
        let promotion = match code {
            0 => None,
            1 => Some(Piece::Knight),
            2 => Some(Piece::Bishop),
            3 => Some(Piece::Rook),
            4 => Some(Piece::Queen),
            _ => {
                return Err(Error::InvalidArgument);
            },
        };
        Ok(Mov { from, to, promotion })
    }

    /// The move named by 4 or 5 text characters, as "e2e4" or "e7e8q".
    pub fn from_str(value: &str) -> (r: Result<Mov>)
        ensures
            (r matches Ok(m) ==> (spec_parse_mov(value@) matches Ok(mm) && m@ == mm)),
            (r matches Err(e) ==> spec_parse_mov(value@) == Result::<MovModel>::Err(e)),
    {
        let len = value.unicode_len();
        if len < 4 {
            return Err(Error::InvalidArgument);
        }
        let from_file = match File::from_char(value.get_char(0)) {
            Ok(f) => f,
            Err(e) => {
                return Err(e);
            },
        };
        let from_rank = match Rank::from_char(value.get_char(1)) {
            Ok(k) => k,
            Err(e) => {
                return Err(e);
            },
        };
        let to_file = match File::from_char(value.get_char(2)) {
            Ok(f) => f,
            Err(e) => {
                return Err(e);
            },
        };
        let to_rank = match Rank::from_char(value.get_char(3)) {
            Ok(k) => k,
            Err(e) => {
                return Err(e);
            },
        };
        let promotion = if len >= 5 {
            match Piece::from_char(value.get_char(4)) {
                Ok(piece) => Some(piece),
                Err(e) => {
                    return Err(e);
                },
            }
        } else {
            None
        };
        Ok(Mov { from: Square::new(from_file, from_rank), to: Square::new(to_file, to_rank), promotion })
    }
}

/// The six-bit fields of a packed move stay on the board, and the
/// promotion nibble stays below sixteen.
proof fn lemma_mov_field_bounds(e: u16)
    by (bit_vector)
    ensures
        ((e >> 6) & 0x3f) < 64,
        (e & 0x3f) < 64,
        ((e >> 12) & 0x0f) < 16,
{
}

} // verus!
