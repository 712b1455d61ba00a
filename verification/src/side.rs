//! The two sides of the game.

use vstd::prelude::*;
use vstd::string::StrSliceExecFns;
use crate::common::{Error, Result};

verus! {

#[derive(Copy, Clone, Debug, PartialEq, Eq, Structural)]
pub enum Side {
    White,
    Black,
}

impl Side {
    /// The numeric index of the side: white is 0, black is 1.
    pub open spec fn spec_index(self) -> u8 {
        match self {
            Side::White => 0,
            Side::Black => 1,
        }
    }

    pub open spec fn spec_flip(self) -> Side {
        match self {
            Side::White => Side::Black,
            Side::Black => Side::White,
        }
    }

    /// The opposing side.
    pub fn flip(&self) -> (r: Side)
        ensures
            r == self.spec_flip(),
    {
        match self {
            Side::White => Side::Black,
            Side::Black => Side::White,
        }
    }

    pub fn to_index(&self) -> (r: u8)
        ensures
            r == self.spec_index(),
    {
        match self {
            Side::White => 0,
            Side::Black => 1,
        }
    }

    pub fn from_index(index: u8) -> (r: Result<Side>)
        ensures
            index == 0 ==> r == Result::<Side>::Ok(Side::White),
            index == 1 ==> r == Result::<Side>::Ok(Side::Black),
            index > 1 ==> r == Result::<Side>::Err(Error::InvalidArgument),
    {
        match index {
            0 => Ok(Side::White),
            1 => Ok(Side::Black),
            _ => Err(Error::InvalidArgument),
        }
    }

    /// The FEN letter of the side: 'w' or 'b'.
    pub fn to_char(&self) -> (r: char)
        ensures
            r == self.spec_char(),
    {
        match self {
            Side::White => 'w',
            Side::Black => 'b',
        }
    }

    pub open spec fn spec_char(self) -> char {
        match self {
            Side::White => 'w',
            Side::Black => 'b',
        }
    }

    /// Parses the long side name, "white" or "black".
    pub fn from_str(string: &str) -> (r: Result<Side>)
        ensures
            string@ == "white"@ ==> r == Result::<Side>::Ok(Side::White),
            string@ == "black"@ ==> r == Result::<Side>::Ok(Side::Black),
            string@ != "white"@ && string@ != "black"@ ==> r == Result::<Side>::Err(
                Error::InvalidArgument,
            ),
    {
        proof {
            reveal_strlit("white");
            reveal_strlit("black");
        }
        let len = string.unicode_len();
        if len != 5 {
            return Err(Error::InvalidArgument);
        }
        let c0 = string.get_char(0);
        let c1 = string.get_char(1);
        let c2 = string.get_char(2);
        let c3 = string.get_char(3);
        let c4 = string.get_char(4);
        if c0 == 'w' && c1 == 'h' && c2 == 'i' && c3 == 't' && c4 == 'e' {
            proof {
                assert(string@ =~= "white"@);
            }
            Ok(Side::White)
        } else if c0 == 'b' && c1 == 'l' && c2 == 'a' && c3 == 'c' && c4 == 'k' {
            proof {
                assert(string@ =~= "black"@);
            }
            Ok(Side::Black)
        } else {
            Err(Error::InvalidArgument)
        }
    }

    /// The long name of the side, "white" or "black".
    pub fn as_str(&self) -> (r: &'static str)
        ensures
            self == Side::White ==> r@ == "white"@,
            self == Side::Black ==> r@ == "black"@,
    {
        match self {
            Side::White => "white",
            Side::Black => "black",
        }
    }
}

} // verus!
