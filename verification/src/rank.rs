//! The eight ranks of the board, 1 through 8.

use vstd::prelude::*;
use crate::common::{Error, Result};

verus! {

#[derive(Copy, Clone, Debug, PartialEq, Eq, Structural)]
pub enum Rank {
    _1,
    _2,
    _3,
    _4,
    _5,
    _6,
    _7,
    _8,
}

impl Rank {
    /// The numeric index of the rank, rank 1 is 0 and rank 8 is 7.
    pub open spec fn spec_index(self) -> u8 {
        match self {
            Rank::_1 => 0,
            Rank::_2 => 1,
            Rank::_3 => 2,
            Rank::_4 => 3,
            Rank::_5 => 4,
            Rank::_6 => 5,
            Rank::_7 => 6,
            Rank::_8 => 7,
        }
    }

    pub fn to_index(&self) -> (r: u8)
        ensures
            r == self.spec_index(),
    {
        match self {
            Rank::_1 => 0,
            Rank::_2 => 1,
            Rank::_3 => 2,
            Rank::_4 => 3,
            Rank::_5 => 4,
            Rank::_6 => 5,
            Rank::_7 => 6,
            Rank::_8 => 7,
        }
    }

    pub open spec fn spec_from_index(index: u8) -> Result<Rank> {
        match index {
            0 => Ok(Rank::_1),
            1 => Ok(Rank::_2),
            2 => Ok(Rank::_3),
            3 => Ok(Rank::_4),
            4 => Ok(Rank::_5),
            5 => Ok(Rank::_6),
            6 => Ok(Rank::_7),
            7 => Ok(Rank::_8),
            _ => Err(Error::InvalidArgument),
        }
    }

    pub fn from_index(index: u8) -> (r: Result<Rank>)
        ensures
            r == Rank::spec_from_index(index),
            index < 8 ==> (r matches Ok(k) && k.spec_index() == index),
            index >= 8 ==> r is Err,
    {
        match index {
            0 => Ok(Rank::_1),
            1 => Ok(Rank::_2),
            2 => Ok(Rank::_3),
            3 => Ok(Rank::_4),
            4 => Ok(Rank::_5),
            5 => Ok(Rank::_6),
            6 => Ok(Rank::_7),
            7 => Ok(Rank::_8),
            _ => Err(Error::InvalidArgument),
        }
    }

    /// The digit of the rank, '1' through '8'.
    pub open spec fn spec_char(self) -> char {
        match self {
            Rank::_1 => '1',
            Rank::_2 => '2',
            Rank::_3 => '3',
            Rank::_4 => '4',
            Rank::_5 => '5',
            Rank::_6 => '6',
            Rank::_7 => '7',
            Rank::_8 => '8',
        }
    }

    pub fn to_char(&self) -> (r: char)
        ensures
            r == self.spec_char(),
    {
        match self {
            Rank::_1 => '1',
            Rank::_2 => '2',
            Rank::_3 => '3',
            Rank::_4 => '4',
            Rank::_5 => '5',
            Rank::_6 => '6',
            Rank::_7 => '7',
            Rank::_8 => '8',
        }
    }

    pub open spec fn spec_from_char(value: char) -> Result<Rank> {
        match value {
            '1' => Ok(Rank::_1),
            '2' => Ok(Rank::_2),
            '3' => Ok(Rank::_3),
            '4' => Ok(Rank::_4),
            '5' => Ok(Rank::_5),
            '6' => Ok(Rank::_6),
            '7' => Ok(Rank::_7),
            '8' => Ok(Rank::_8),
            _ => Err(Error::InvalidArgument),
        }
    }

    /// Parses a rank digit.
    pub fn from_char(value: char) -> (r: Result<Rank>)
        ensures
            r == Rank::spec_from_char(value),
    {
        match value {
            '1' => Ok(Rank::_1),
            '2' => Ok(Rank::_2),
            '3' => Ok(Rank::_3),
            '4' => Ok(Rank::_4),
            '5' => Ok(Rank::_5),
            '6' => Ok(Rank::_6),
            '7' => Ok(Rank::_7),
            '8' => Ok(Rank::_8),
            _ => Err(Error::InvalidArgument),
        }
    }
}

} // verus!
