//! Turn-preference steering for autonomous wanderers.
//!
//! A stopped wanderer picks its next intended direction from its last known
//! heading: one variety prefers turning left, the other right, and both fall
//! back on reversing when flanked. The choice reads the wall grid and the
//! reservation registry exactly as the motion state machine's start gate
//! does, so a chosen heading is normally open when the next tick starts.

use vstd::prelude::*;
use crate::coords::GridVec;
use crate::registry::{owner_of, Registry};
use crate::walls::WallGrid;

verus! {

/// A target cell is blocked when it is a wall or reserved by another actor;
/// the asker's own reservation does not block it.
pub open spec fn spec_blocked(
    target: GridVec,
    id: u64,
    s: Seq<(GridVec, u64)>,
    w: WallGrid,
) -> bool {
    w.wall_at(target) || (match owner_of(s, target) {
        Some(o) => o != id,
        None => false,
    })
}

/// The heading one quarter turn to the left of `d`.
pub open spec fn left_of(d: GridVec) -> GridVec {
    GridVec { x: d.y, y: (-d.x) as i32 }
}

/// The heading one quarter turn to the right of `d`.
pub open spec fn right_of(d: GridVec) -> GridVec {
    GridVec { x: (-d.y) as i32, y: d.x }
}

/// The reversed heading.
pub open spec fn back_of(d: GridVec) -> GridVec {
    GridVec { x: (-d.x) as i32, y: (-d.y) as i32 }
}

/// The left-turner's choice: left if open, else right, else back.
pub open spec fn spec_left_turn(
    forward: GridVec,
    pos: GridVec,
    id: u64,
    s: Seq<(GridVec, u64)>,
    w: WallGrid,
) -> GridVec {
    if !spec_blocked(pos.plus_spec(left_of(forward)), id, s, w) {
        left_of(forward)
    } else if !spec_blocked(pos.plus_spec(right_of(forward)), id, s, w) {
        right_of(forward)
    } else {
        back_of(forward)
    }
}

/// The right-turner's choice: right if open, else left, else back.
pub open spec fn spec_right_turn(
    forward: GridVec,
    pos: GridVec,
    id: u64,
    s: Seq<(GridVec, u64)>,
    w: WallGrid,
) -> GridVec {
    if !spec_blocked(pos.plus_spec(right_of(forward)), id, s, w) {
        right_of(forward)
    } else if !spec_blocked(pos.plus_spec(left_of(forward)), id, s, w) {
        left_of(forward)
    } else {
        back_of(forward)
    }
}

/// Whether `target` is closed to the actor `id`: a wall, or someone else's
/// reservation.
pub fn is_blocked(target: GridVec, id: u64, reg: &Registry, walls: &WallGrid) -> (r: bool)
    requires
        reg.wf(),
        walls.wf(),
    ensures
        r == spec_blocked(target, id, reg@, *walls),
{
    if walls.is_wall(target) {
        return true;
    }
    match reg.occupant(target) {
        Some(o) => o != id,
        None => false,
    }
}

/// Pick the next heading for a stopped left-turner: prefer the left of its
/// last heading, then the right, and reverse as the last resort.
pub fn left_turn_choice(
    forward: GridVec,
    pos: GridVec,
    id: u64,
    reg: &Registry,
    walls: &WallGrid,
) -> (r: GridVec)
    requires
        forward.is_step(),
        pos.in_coord_range(),
        reg.wf(),
        walls.wf(),
    ensures
        r == spec_left_turn(forward, pos, id, reg@, *walls),
        r.is_step(),
{
    let left = GridVec { x: forward.y, y: -forward.x };
    let right = GridVec { x: -forward.y, y: forward.x };
    if !is_blocked(pos.plus(left), id, reg, walls) {
        left
    } else if !is_blocked(pos.plus(right), id, reg, walls) {
        right
    } else {
        forward.negated()
    }
}

/// Pick the next heading for a stopped right-turner: prefer the right of its
/// last heading, then the left, and reverse as the last resort.
pub fn right_turn_choice(
    forward: GridVec,
    pos: GridVec,
    id: u64,
    reg: &Registry,
    walls: &WallGrid,
) -> (r: GridVec)
    requires
        forward.is_step(),
        pos.in_coord_range(),
        reg.wf(),
        walls.wf(),
    ensures
        r == spec_right_turn(forward, pos, id, reg@, *walls),
        r.is_step(),
{
    let left = GridVec { x: forward.y, y: -forward.x };
    let right = GridVec { x: -forward.y, y: forward.x };
    if !is_blocked(pos.plus(right), id, reg, walls) {
        right
    } else if !is_blocked(pos.plus(left), id, reg, walls) {
        left
    } else {
        forward.negated()
    }
}

} // verus!
