//! Bounce-direction geometry on wall impact.

use vstd::prelude::*;
use crate::coords::GridVec;
use crate::walls::WallGrid;

verus! {

/// The bounce direction for an actor moving along `dir` that hit a wall after
/// arriving at `pos`. The cell one step horizontally and the cell one step
/// vertically from the impact point decide the new direction:
/// - horizontal neighbour open: invert the y component (horizontal surface);
/// - else vertical neighbour open: invert the x component;
/// - else (a corner) invert both.
/// The horizontal check comes first by convention; the order is visually
/// observable and must not change.
pub open spec fn reflect_spec(dir: GridVec, pos: GridVec, w: WallGrid) -> GridVec {
    let horiz = GridVec { x: (pos.x + dir.x) as i32, y: pos.y };
    let vert = GridVec { x: pos.x, y: (pos.y + dir.y) as i32 };
    if !w.wall_at(horiz) {
        GridVec { x: dir.x, y: (-dir.y) as i32 }
    } else if !w.wall_at(vert) {
        GridVec { x: (-dir.x) as i32, y: dir.y }
    } else {
        GridVec { x: (-dir.x) as i32, y: (-dir.y) as i32 }
    }
}

/// Deterministic bounce computation; pure, no side effects.
pub fn reflect(dir: GridVec, pos: GridVec, w: &WallGrid) -> (r: GridVec)
    requires
        w.wf(),
        dir.is_step(),
        pos.in_coord_range(),
    ensures
        r == reflect_spec(dir, pos, *w),
        r.is_step(),
{
    let horiz = GridVec { x: pos.x + dir.x, y: pos.y };
    let vert = GridVec { x: pos.x, y: pos.y + dir.y };
    if !w.is_wall(horiz) {
        GridVec { x: dir.x, y: -dir.y }
    } else if !w.is_wall(vert) {
        GridVec { x: -dir.x, y: dir.y }
    } else {
        GridVec { x: -dir.x, y: -dir.y }
    }
}

/// Reflection keeps the step length: each component keeps its magnitude, so
/// diagonal steps stay diagonal and orthogonal steps stay orthogonal.
pub proof fn lemma_reflect_keeps_norm(dir: GridVec, pos: GridVec, w: WallGrid)
    requires
        dir.is_step(),
    ensures
        reflect_spec(dir, pos, w).is_step(),
        reflect_spec(dir, pos, w).norm_sq() == dir.norm_sq(),
        reflect_spec(dir, pos, w).is_origin() == dir.is_origin(),
{
    let r = reflect_spec(dir, pos, w);
    assert(r.x * r.x == dir.x * dir.x && r.y * r.y == dir.y * dir.y) by (nonlinear_arith)
        requires
            (r.x == dir.x || r.x == -dir.x) && (r.y == dir.y || r.y == -dir.y),
            -1 <= dir.x <= 1 && -1 <= dir.y <= 1,
    ;
}

/// A corner impact (both probe cells walls) always reverses the direction
/// outright.
pub proof fn lemma_corner_reflection(dir: GridVec, pos: GridVec, w: WallGrid)
    requires
        dir.is_step(),
        w.wall_at(GridVec { x: (pos.x + dir.x) as i32, y: pos.y }),
        w.wall_at(GridVec { x: pos.x, y: (pos.y + dir.y) as i32 }),
    ensures
        reflect_spec(dir, pos, w) == (GridVec { x: (-dir.x) as i32, y: (-dir.y) as i32 }),
        reflect_spec(dir, pos, w).x == -dir.x,
        reflect_spec(dir, pos, w).y == -dir.y,
{
}

} // verus!
