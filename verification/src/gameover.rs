//! The ways a game ends, as reported to the host layer around the
//! engine.

use vstd::prelude::*;
use crate::common::{Error, Result};

verus! {

#[derive(Copy, Clone, Debug, PartialEq, Eq, Structural)]
pub enum GameOverReason {
    Checkmate,
    Stalemate,
    InsufficientMatingMaterial,
    Resignation,
    ThreefoldRepetition,
    FiftyMoveRule,
    Abandonment,
    DrawAgreement,
}

impl GameOverReason {
    /// The numeric code of the reason.
    pub open spec fn spec_index(self) -> u8 {
        match self {
            GameOverReason::Checkmate => 0,
            GameOverReason::Stalemate => 1,
            GameOverReason::InsufficientMatingMaterial => 2,
            GameOverReason::Resignation => 3,
            GameOverReason::ThreefoldRepetition => 4,
            GameOverReason::FiftyMoveRule => 5,
            GameOverReason::Abandonment => 6,
            GameOverReason::DrawAgreement => 7,
        }
    }

    pub fn to_index(&self) -> (r: u8)
        ensures
            r == self.spec_index(),
    {
        match self {
            GameOverReason::Checkmate => 0,
            GameOverReason::Stalemate => 1,
            GameOverReason::InsufficientMatingMaterial => 2,
            GameOverReason::Resignation => 3,
            GameOverReason::ThreefoldRepetition => 4,
            GameOverReason::FiftyMoveRule => 5,
            GameOverReason::Abandonment => 6,
            GameOverReason::DrawAgreement => 7,
        }
    }

    pub fn from_index(index: u8) -> (r: Result<GameOverReason>)
        ensures
            index <= 7 ==> (r matches Ok(reason) && reason.spec_index() == index),
            index > 7 ==> r == Result::<GameOverReason>::Err(Error::InvalidArgument),
    {
        match index {
            0 => Ok(GameOverReason::Checkmate),
            1 => Ok(GameOverReason::Stalemate),
            2 => Ok(GameOverReason::InsufficientMatingMaterial),
            3 => Ok(GameOverReason::Resignation),
            4 => Ok(GameOverReason::ThreefoldRepetition),
            5 => Ok(GameOverReason::FiftyMoveRule),
            6 => Ok(GameOverReason::Abandonment),
            7 => Ok(GameOverReason::DrawAgreement),
            _ => Err(Error::InvalidArgument),
        }
    }

    /// The short name of the reason.
    pub fn as_str(&self) -> (r: &'static str)
        ensures
            r@ == self.spec_str(),
    {
        proof {
            reveal_strlit("checkmate");
            reveal_strlit("stalemate");
            reveal_strlit("insufficient mating material");
            reveal_strlit("resignation");
            reveal_strlit("threefold repetition");
            reveal_strlit("fifty move rule");
            reveal_strlit("abandonment");
            reveal_strlit("draw agreement");
        }
        match self {
            GameOverReason::Checkmate => "checkmate",
            GameOverReason::Stalemate => "stalemate",
            GameOverReason::InsufficientMatingMaterial => "insufficient mating material",
            GameOverReason::Resignation => "resignation",
            GameOverReason::ThreefoldRepetition => "threefold repetition",
            GameOverReason::FiftyMoveRule => "fifty move rule",
            GameOverReason::Abandonment => "abandonment",
            GameOverReason::DrawAgreement => "draw agreement",
        }
    }

    pub open spec fn spec_str(self) -> Seq<char> {
        match self {
            GameOverReason::Checkmate => "checkmate"@,
            GameOverReason::Stalemate => "stalemate"@,
            GameOverReason::InsufficientMatingMaterial => "insufficient mating material"@,
            GameOverReason::Resignation => "resignation"@,
            GameOverReason::ThreefoldRepetition => "threefold repetition"@,
            GameOverReason::FiftyMoveRule => "fifty move rule"@,
            GameOverReason::Abandonment => "abandonment"@,
            GameOverReason::DrawAgreement => "draw agreement"@,
        }
    }
}

} // verus!
