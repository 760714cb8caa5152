//! Immutable wall grid with a fail-closed lookup.

use vstd::prelude::*;
use crate::coords::GridVec;

verus! {

/// Upper bound on the grid dimensions; keeps committed cells inside the
/// coordinate range and the flat index inside `u64`.
pub const DIM_LIMIT: u32 = 0x10_0000;

/// An immutable grid of walls. `cells` is row-major with the *top* row first,
/// while grid coordinates put `(0, 0)` at the bottom-left, so lookups flip the
/// y coordinate. A missing or out-of-range entry is treated as a wall.
pub struct WallGrid {
    pub width: u32,
    pub height: u32,
    pub cells: Vec<bool>,
}

impl WallGrid {
    /// Dimensions small enough that every in-bounds cell is in
    /// coordinate range and index arithmetic stays exact.
    pub open spec fn wf(self) -> bool {
        self.width <= DIM_LIMIT && self.height <= DIM_LIMIT
    }

    /// The flat index of an in-bounds cell, after the y flip.
    pub open spec fn index_of(self, pos: GridVec) -> int {
        (self.height - 1 - pos.y) * self.width + pos.x
    }

    /// Whether `pos` is impassable: anything outside `[0, width) x
    /// [0, height)` is a wall, and an index beyond the stored data reads as a
    /// wall as well (fail closed, never fail open).
    pub open spec fn wall_at(self, pos: GridVec) -> bool {
        if pos.x < 0 || pos.y < 0 || pos.x >= self.width || pos.y >= self.height {
            true
        } else if self.index_of(pos) >= self.cells@.len() {
            true
        } else {
            self.cells@[self.index_of(pos)]
        }
    }

    pub fn new(width: u32, height: u32, cells: Vec<bool>) -> (r: WallGrid)
        requires
            width <= DIM_LIMIT,
            height <= DIM_LIMIT,
        ensures
            r.wf(),
            r == (WallGrid { width, height, cells }),
    {
        WallGrid { width, height, cells }
    }

    /// Fail-closed wall lookup.
    pub fn is_wall(&self, pos: GridVec) -> (r: bool)
        requires
            self.wf(),
        ensures
            r == self.wall_at(pos),
    {
        if pos.x < 0 || pos.y < 0 {
            return true;
        }
        let x: u32 = pos.x as u32;
        let y: u32 = pos.y as u32;
        if x >= self.width || y >= self.height {
            return true;
        }
        let flipped_y: u64 = (self.height - 1 - y) as u64;
        proof {
            assert(flipped_y * self.width <= 0x10_0000u64 * 0x10_0000u64) by (nonlinear_arith)
                requires
                    flipped_y <= 0x10_0000u64,
                    self.width <= 0x10_0000u64,
            ;
        }
        let idx: u64 = flipped_y * (self.width as u64) + (x as u64);
        if idx >= self.cells.len() as u64 {
            return true;
        }
        self.cells[idx as usize]
    }
}

} // verus!
