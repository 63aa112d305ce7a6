//! A four-way compass direction with quarter-turn rotation helpers.

use vstd::prelude::*;

verus! {

/// One of the four axis-aligned movement directions.
#[derive(Hash, PartialEq, Eq, Structural, Debug, Clone, Copy)]
pub enum Direction {
    Up,
    Right,
    Down,
    Left,
}

impl Direction {
    /// The direction 90 degrees counter-clockwise from `self`.
    pub open spec fn spec_ccw(self) -> Direction {
        match self {
            Direction::Up => Direction::Left,
            Direction::Left => Direction::Down,
            Direction::Down => Direction::Right,
            Direction::Right => Direction::Up,
        }
    }

    /// The direction 180 degrees from `self`.
    pub open spec fn spec_flip(self) -> Direction {
        self.spec_ccw().spec_ccw()
    }

    /// The direction 90 degrees clockwise from `self`.
    pub open spec fn spec_cw(self) -> Direction {
        self.spec_flip().spec_ccw()
    }

    /// Get the [`Direction`] that is 90 degrees counter-clockwise from `self`.
    #[verifier::when_used_as_spec(spec_ccw)]
    pub fn ccw(self) -> (r: Self)
        ensures
            r == self.spec_ccw(),
    {
        match self {
            Direction::Up => Direction::Left,
            Direction::Left => Direction::Down,
            Direction::Down => Direction::Right,
            Direction::Right => Direction::Up,
        }
    }

    /// Get the [`Direction`] that is 180 degrees from `self`.
    #[verifier::when_used_as_spec(spec_flip)]
    pub fn flip(self) -> (r: Self)
        ensures
            r == self.spec_flip(),
    {
        self.ccw().ccw()
    }

    /// Get the [`Direction`] that is 90 degrees clockwise from `self`.
    #[verifier::when_used_as_spec(spec_cw)]
    pub fn cw(self) -> (r: Self)
        ensures
            r == self.spec_cw(),
    {
        self.flip().ccw()
    }
}

/// Rotation laws: four counter-clockwise quarter turns are the identity,
/// a half turn is two clockwise quarter turns, and a clockwise quarter turn
/// undoes a counter-clockwise one.
pub proof fn lemma_rotation_laws(d: Direction)
    ensures
        d.ccw().ccw().ccw().ccw() == d,
        d.flip() == d.cw().cw(),
        d.ccw().cw() == d,
        d.cw().ccw() == d,
        d.flip().flip() == d,
{
}

} // verus!
