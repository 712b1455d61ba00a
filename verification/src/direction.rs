//! The eight ray directions of sliding-piece movement.

use vstd::prelude::*;

verus! {

#[derive(Copy, Clone, Debug, PartialEq, Eq, Structural)]
pub enum Direction {
    North,
    NorthEast,
    East,
    SouthEast,
    South,
    SouthWest,
    West,
    NorthWest,
}

impl Direction {
    /// A direction is positive when it moves toward higher square indices.
    pub open spec fn spec_positive(self) -> bool {
        match self {
            Direction::NorthWest | Direction::North | Direction::NorthEast
                | Direction::East => true,
            _ => false,
        }
    }

    pub fn positive(&self) -> (r: bool)
        ensures
            r == self.spec_positive(),
    {
        match self {
            Direction::NorthWest | Direction::North | Direction::NorthEast
                | Direction::East => true,
            _ => false,
        }
    }

    pub fn negative(&self) -> (r: bool)
        ensures
            r == !self.spec_positive(),
    {
        !self.positive()
    }
}

} // verus!
