//! Two-dimensional integer vectors, used for window positions, sizes and
//! drag deltas. Arithmetic is componentwise; `max` clamps a size to a floor.

use vstd::prelude::*;

verus! {

#[derive(Debug, Copy, Clone, PartialEq, Eq, Structural)]
pub struct Vector2D {
    pub x: i32,
    pub y: i32,
}

impl Vector2D {
    pub fn new(x: i32, y: i32) -> (v: Self)
        ensures
            v == (Vector2D { x, y }),
    {
        Self { x, y }
    }

    /// Componentwise addition.
    pub fn add(self, other: Self) -> (r: Self)
        requires
            i32::MIN <= self.x + other.x <= i32::MAX,
            i32::MIN <= self.y + other.y <= i32::MAX,
        ensures
            r.x == self.x + other.x,
            r.y == self.y + other.y,
    {
        Self { x: self.x + other.x, y: self.y + other.y }
    }

    /// Componentwise subtraction.
    pub fn sub(self, other: Self) -> (r: Self)
        requires
            i32::MIN <= self.x - other.x <= i32::MAX,
            i32::MIN <= self.y - other.y <= i32::MAX,
        ensures
            r.x == self.x - other.x,
            r.y == self.y - other.y,
    {
        Self { x: self.x - other.x, y: self.y - other.y }
    }

    /// Componentwise maximum, used to keep a size above a floor.
    pub fn max(&self, other: Self) -> (r: Self)
        ensures
            r.x == if self.x >= other.x { self.x } else { other.x },
            r.y == if self.y >= other.y { self.y } else { other.y },
    {
        Self {
            x: if self.x >= other.x { self.x } else { other.x },
            y: if self.y >= other.y { self.y } else { other.y },
        }
    }
}

impl Default for Vector2D {
    fn default() -> (v: Self)
        ensures
            v == (Vector2D { x: 0, y: 0 }),
    {
        Self { x: 0, y: 0 }
    }
}

} // verus!
