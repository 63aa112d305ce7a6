//! An integer 2D point / displacement with directional arithmetic.

use vstd::prelude::*;

use crate::direction::Direction;

verus! {

/// A 2D point or displacement on the integer grid. The derived total order
/// keeps collections of points deterministic in tests.
#[derive(Hash, PartialEq, Eq, PartialOrd, Ord, Structural, Debug, Clone, Copy)]
pub struct Vector2 {
    pub x: i32,
    pub y: i32,
}

impl View for Vector2 {
    type V = (int, int);

    open spec fn view(&self) -> (int, int) {
        (self.x as int, self.y as int)
    }
}

/// The point `p` shifted by `magnitude` in `direction`, in exact
/// (unbounded) integer arithmetic. `Up` increases `y`, `Right` increases `x`.
pub open spec fn shifted(p: (int, int), direction: Direction, magnitude: int) -> (int, int) {
    match direction {
        Direction::Up => (p.0, p.1 + magnitude),
        Direction::Down => (p.0, p.1 - magnitude),
        Direction::Left => (p.0 - magnitude, p.1),
        Direction::Right => (p.0 + magnitude, p.1),
    }
}

/// Whether both coordinates of an exact integer point fit in `i32`.
pub open spec fn fits_i32(p: (int, int)) -> bool {
    i32::MIN <= p.0 <= i32::MAX && i32::MIN <= p.1 <= i32::MAX
}

/// The [`Vector2`] with the given exact integer coordinates, which must fit
/// in `i32` for the result to be faithful.
pub open spec fn vec_of(p: (int, int)) -> Vector2 {
    Vector2 { x: p.0 as i32, y: p.1 as i32 }
}

impl Vector2 {
    /// Gets a [`Vector2`] shifted by `magnitude` in `direction`.
    pub fn neighbour(self, direction: Direction, magnitude: i32) -> (r: Self)
        requires
            fits_i32(shifted(self@, direction, magnitude as int)),
        ensures
            r@ == shifted(self@, direction, magnitude as int),
    {
        match direction {
            Direction::Up => Self { y: self.y + magnitude, ..self },
            Direction::Down => Self { y: self.y - magnitude, ..self },
            Direction::Left => Self { x: self.x - magnitude, ..self },
            Direction::Right => Self { x: self.x + magnitude, ..self },
        }
    }

    /// Moves `self` by `magnitude` in `direction`.
    pub fn move_in(&mut self, direction: Direction, magnitude: i32)
        requires
            fits_i32(shifted(old(self)@, direction, magnitude as int)),
        ensures
            final(self)@ == shifted(old(self)@, direction, magnitude as int),
    {
        match direction {
            Direction::Up => self.y = self.y + magnitude,
            Direction::Down => self.y = self.y - magnitude,
            Direction::Left => self.x = self.x - magnitude,
            Direction::Right => self.x = self.x + magnitude,
        }
    }

    /// Negates both components.
    pub fn negated(self) -> (r: Self)
        requires
            fits_i32((-self@.0, -self@.1)),
        ensures
            r@ == (-self@.0, -self@.1),
    {
        Self { x: -self.x, y: -self.y }
    }

    /// Component-wise addition.
    pub fn plus(self, rhs: Self) -> (r: Self)
        requires
            fits_i32((self@.0 + rhs@.0, self@.1 + rhs@.1)),
        ensures
            r@ == (self@.0 + rhs@.0, self@.1 + rhs@.1),
    {
        Self { x: self.x + rhs.x, y: self.y + rhs.y }
    }

    /// Component-wise subtraction.
    pub fn minus(self, rhs: Self) -> (r: Self)
        requires
            fits_i32((self@.0 - rhs@.0, self@.1 - rhs@.1)),
        ensures
            r@ == (self@.0 - rhs@.0, self@.1 - rhs@.1),
    {
        Self { x: self.x - rhs.x, y: self.y - rhs.y }
    }

    /// Component-wise scalar multiplication.
    pub fn times(self, rhs: i32) -> (r: Self)
        requires
            fits_i32((self@.0 * rhs, self@.1 * rhs)),
        ensures
            r@ == (self@.0 * rhs, self@.1 * rhs),
    {
        Self { x: self.x * rhs, y: self.y * rhs }
    }
}

impl Default for Vector2 {
    /// The origin.
    fn default() -> (r: Self)
        ensures
            r@ == (0int, 0int),
    {
        Vector2 { x: 0, y: 0 }
    }
}

/// Shifting by `magnitude` in a direction and then by the same `magnitude`
/// in the flipped direction returns to the starting point.
pub proof fn lemma_neighbour_flip_inverse(p: (int, int), direction: Direction, magnitude: int)
    ensures
        shifted(shifted(p, direction, magnitude), direction.flip(), magnitude) == p,
{
}

} // verus!
