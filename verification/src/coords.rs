//! Integer grid coordinates and unit step vectors.

use vstd::prelude::*;

verus! {

/// Largest coordinate magnitude the library works with; keeps all cell
/// arithmetic far away from `i32` overflow.
pub const COORD_LIMIT: i32 = 0x4000_0000;

/// A two-dimensional integer vector, used both for grid cells and for the
/// unit-grid step an actor is executing (components in `{-1, 0, 1}`).
#[derive(Clone, Copy, PartialEq, Eq, Structural, Debug)]
pub struct GridVec {
    pub x: i32,
    pub y: i32,
}

impl GridVec {
    /// Both components are zero: no movement.
    pub open spec fn is_origin(self) -> bool {
        self.x == 0 && self.y == 0
    }

    /// A unit-grid step: each component in `{-1, 0, 1}` (diagonals included).
    pub open spec fn is_step(self) -> bool {
        -1 <= self.x <= 1 && -1 <= self.y <= 1
    }

    /// Squared Euclidean length; for a unit step this is 0, 1 or 2.
    pub open spec fn norm_sq(self) -> int {
        self.x * self.x + self.y * self.y
    }

    /// Both components within `COORD_LIMIT`, so that adding a step cannot
    /// overflow.
    pub open spec fn in_coord_range(self) -> bool {
        -COORD_LIMIT <= self.x <= COORD_LIMIT && -COORD_LIMIT <= self.y <= COORD_LIMIT
    }

    /// The spec-level component-wise sum.
    pub open spec fn plus_spec(self, other: GridVec) -> GridVec {
        GridVec { x: (self.x + other.x) as i32, y: (self.y + other.y) as i32 }
    }

    pub fn new(x: i32, y: i32) -> (r: GridVec)
        ensures
            r == (GridVec { x, y }),
    {
        GridVec { x, y }
    }

    pub fn zero() -> (r: GridVec)
        ensures
            r.is_origin(),
            r == (GridVec { x: 0, y: 0 }),
    {
        GridVec { x: 0, y: 0 }
    }

    pub fn is_zero(&self) -> (r: bool)
        ensures
            r == self.is_origin(),
    {
        self.x == 0 && self.y == 0
    }

    /// Component-wise sum, typically a cell plus a unit step.
    pub fn plus(self, other: GridVec) -> (r: GridVec)
        requires
            self.in_coord_range(),
            other.is_step(),
        ensures
            r == self.plus_spec(other),
            r.x == self.x + other.x,
            r.y == self.y + other.y,
    {
        GridVec { x: self.x + other.x, y: self.y + other.y }
    }

    /// Component-wise negation of a unit step.
    pub fn negated(self) -> (r: GridVec)
        requires
            self.is_step(),
        ensures
            r.x == -self.x,
            r.y == -self.y,
            r.is_step(),
    {
        GridVec { x: -self.x, y: -self.y }
    }

    /// Squared length of a unit step.
    pub fn step_norm_sq(self) -> (r: u64)
        requires
            self.is_step(),
        ensures
            r == self.norm_sq(),
            r <= 2,
    {
        proof {
            assert(self.x * self.x == if self.x == 0 { 0int } else { 1int }) by (nonlinear_arith)
                requires
                    -1 <= self.x <= 1,
            ;
            assert(self.y * self.y == if self.y == 0 { 0int } else { 1int }) by (nonlinear_arith)
                requires
                    -1 <= self.y <= 1,
            ;
        }
        let nx: u64 = if self.x == 0 { 0 } else { 1 };
        let ny: u64 = if self.y == 0 { 0 } else { 1 };
        nx + ny
    }
}

} // verus!
