//! Two-phase collision detection.
//!
//! The broad phase asks the reservation registry who occupies the cell a
//! projectile is about to enter, or the cells next to the controlled actor;
//! only those candidates reach the narrow phase, an exact axis-aligned box
//! overlap on the projected world positions. No pairwise scan ever runs.

use vstd::prelude::*;
use crate::actors::{
    actor_with_id, controlled_actor, find_actor, find_controlled, Actor,
};
use crate::coords::GridVec;
use crate::motion::ActorKind;
use crate::registry::{owner_of, Registry};

verus! {

/// Numerator of the collider expansion factor used by the adjacency check:
/// both collider extents are scaled by `EXPAND_NUM / EXPAND_DEN` (2.25) to
/// catch near-misses at close range.
pub const EXPAND_NUM: u64 = 9;

pub const EXPAND_DEN: u64 = 4;

pub open spec fn iabs(v: int) -> int {
    if v < 0 {
        -v
    } else {
        v
    }
}

/// Strict overlap of two axis-aligned boxes given by their centres and full
/// extents: touching edges do not collide.
pub open spec fn boxes_overlap(
    x1: int,
    y1: int,
    w1: int,
    h1: int,
    x2: int,
    y2: int,
    w2: int,
    h2: int,
) -> bool {
    2 * iabs(x1 - x2) < w1 + w2 && 2 * iabs(y1 - y2) < h1 + h2
}

/// Overlap after scaling both boxes by the expansion factor; with the factor
/// 9/4 the comparison `2|dx| < (9/4)(w1+w2)` becomes `8|dx| < 9(w1+w2)`,
/// which stays exact in integers.
pub open spec fn boxes_overlap_expanded(
    x1: int,
    y1: int,
    w1: int,
    h1: int,
    x2: int,
    y2: int,
    w2: int,
    h2: int,
) -> bool {
    2 * EXPAND_DEN * iabs(x1 - x2) < EXPAND_NUM * (w1 + w2) && 2 * EXPAND_DEN * iabs(y1 - y2)
        < EXPAND_NUM * (h1 + h2)
}

/// Exact axis-aligned box overlap check.
pub fn aabb_overlap(
    x1: i64,
    y1: i64,
    w1: u32,
    h1: u32,
    x2: i64,
    y2: i64,
    w2: u32,
    h2: u32,
) -> (r: bool)
    ensures
        r == boxes_overlap(x1 as int, y1 as int, w1 as int, h1 as int, x2 as int, y2 as int,
            w2 as int, h2 as int),
{
    let dx: i128 = (x1 as i128) - (x2 as i128);
    let adx: i128 = if dx < 0 { -dx } else { dx };
    let dy: i128 = (y1 as i128) - (y2 as i128);
    let ady: i128 = if dy < 0 { -dy } else { dy };
    2 * adx < (w1 as i128) + (w2 as i128) && 2 * ady < (h1 as i128) + (h2 as i128)
}

/// Box overlap with both colliders expanded by 9/4.
pub fn aabb_overlap_expanded(
    x1: i64,
    y1: i64,
    w1: u32,
    h1: u32,
    x2: i64,
    y2: i64,
    w2: u32,
    h2: u32,
) -> (r: bool)
    ensures
        r == boxes_overlap_expanded(x1 as int, y1 as int, w1 as int, h1 as int, x2 as int,
            y2 as int, w2 as int, h2 as int),
{
    let dx: i128 = (x1 as i128) - (x2 as i128);
    let adx: i128 = if dx < 0 { -dx } else { dx };
    let dy: i128 = (y1 as i128) - (y2 as i128);
    let ady: i128 = if dy < 0 { -dy } else { dy };
    8 * adx < 9 * ((w1 as i128) + (w2 as i128)) && 8 * ady < 9 * ((h1 as i128) + (h2 as i128))
}

/// A confirmed projectile impact.
#[derive(Clone, Copy, PartialEq, Eq, Structural, Debug)]
pub struct ProjectileImpact {
    pub projectile: u64,
    pub victim: u64,
}

/// The impact a single arena slot produces this tick, if any: a live, moving
/// projectile whose target cell is reserved, whose occupant is a live actor
/// the narrow phase confirms. A projectile that has not bounced yet never
/// hits the controlled actor (self-fire immunity on the first leg); a
/// reserved cell whose occupant is gone from the arena is no collision.
pub open spec fn projectile_hit(
    a: Actor,
    actors: Seq<Actor>,
    s: Seq<(GridVec, u64)>,
) -> Option<ProjectileImpact> {
    if !a.alive || a.core.kind != ActorKind::Projectile || a.core.direction.is_origin() {
        None
    } else {
        let target = a.core.cell.plus_spec(a.core.direction);
        match owner_of(s, target) {
            None => None,
            Some(vid) => match actor_with_id(actors, vid) {
                None => None,
                Some(v) => {
                    if !v.alive {
                        None
                    } else if v.core.kind == ActorKind::Controlled && a.core.bounces_used() < 1 {
                        None
                    } else if boxes_overlap(
                        a.x as int,
                        a.y as int,
                        a.collider.width as int,
                        a.collider.height as int,
                        v.x as int,
                        v.y as int,
                        v.collider.width as int,
                        v.collider.height as int,
                    ) {
                        Some(ProjectileImpact { projectile: a.core.id, victim: vid })
                    } else {
                        None
                    }
                },
            },
        }
    }
}

/// All impacts produced by the first `n` arena slots, in slot order.
pub open spec fn impacts_upto(actors: Seq<Actor>, s: Seq<(GridVec, u64)>, n: int) -> Seq<
    ProjectileImpact,
>
    decreases n,
{
    if n <= 0 {
        Seq::empty()
    } else {
        let pre = impacts_upto(actors, s, n - 1);
        match projectile_hit(actors[n - 1], actors, s) {
            Some(im) => pre.push(im),
            None => pre,
        }
    }
}

/// All projectile impacts this tick, one per hitting projectile.
pub open spec fn spec_impacts(actors: Seq<Actor>, s: Seq<(GridVec, u64)>) -> Seq<
    ProjectileImpact,
> {
    impacts_upto(actors, s, actors.len() as int)
}

/// Detect every projectile impact against the committed reservations. Read
/// only; must run after motion has committed (a stale registry would miss or
/// double-report impacts).
pub fn detect_impacts(actors: &Vec<Actor>, reg: &Registry) -> (out: Vec<ProjectileImpact>)
    requires
        forall|i: int|
            0 <= i < actors@.len() ==> (#[trigger] actors@[i]).core.cell.in_coord_range()
                && actors@[i].core.direction.is_step()
                && (match actors@[i].core.bounce {
                    Some(b) => b.remaining <= b.initial,
                    None => true,
                }),
    ensures
        out@ == spec_impacts(actors@, reg@),
{
    let n: usize = actors.len();
    let mut out: Vec<ProjectileImpact> = Vec::new();
    let mut i: usize = 0;
    while i < n
        invariant
            n == actors@.len(),
            0 <= i <= n,
            out@ == impacts_upto(actors@, reg@, i as int),
            forall|k: int|
                0 <= k < actors@.len() ==> (#[trigger] actors@[k]).core.cell.in_coord_range()
                    && actors@[k].core.direction.is_step()
                    && (match actors@[k].core.bounce {
                        Some(b) => b.remaining <= b.initial,
                        None => true,
                    }),
        decreases n - i,
    {
        let a = actors[i];
        let is_proj = match a.core.kind {
            ActorKind::Projectile => true,
            _ => false,
        };
        if a.alive && is_proj && !a.core.direction.is_zero() {
            let target = a.core.cell.plus(a.core.direction);
            match reg.occupant(target) {
                None => {},
                Some(vid) => {
                    match find_actor(actors, vid) {
                        None => {},
                        Some(vi) => {
                            let v = actors[vi];
                            let v_ctrl = match v.core.kind {
                                ActorKind::Controlled => true,
                                _ => false,
                            };
                            let bounced: u32 = match a.core.bounce {
                                Some(b) => b.initial - b.remaining,
                                None => 0,
                            };
                            if v.alive && !(v_ctrl && bounced < 1) {
                                if aabb_overlap(
                                    a.x,
                                    a.y,
                                    a.collider.width,
                                    a.collider.height,
                                    v.x,
                                    v.y,
                                    v.collider.width,
                                    v.collider.height,
                                ) {
                                    out.push(
                                        ProjectileImpact { projectile: a.core.id, victim: vid },
                                    );
                                }
                            }
                        },
                    }
                },
            }
        }
        i = i + 1;
    }
    out
}

/// The eight neighbouring directions probed by the adjacency check, in the
/// order they are probed: the four cardinals, then the four diagonals.
pub open spec fn adjacency_dirs() -> Seq<GridVec> {
    seq![
        GridVec { x: 0i32, y: 1i32 },
        GridVec { x: 0i32, y: -1i32 },
        GridVec { x: -1i32, y: 0i32 },
        GridVec { x: 1i32, y: 0i32 },
        GridVec { x: -1i32, y: 1i32 },
        GridVec { x: 1i32, y: 1i32 },
        GridVec { x: -1i32, y: -1i32 },
        GridVec { x: 1i32, y: -1i32 },
    ]
}

/// The live autonomous actor that a probe one step `d` away from the
/// controlled actor `p` collides with, if any: its cell must be reserved,
/// the occupant present and alive, and the expanded boxes must overlap.
pub open spec fn adjacent_hit(
    p: Actor,
    d: GridVec,
    actors: Seq<Actor>,
    s: Seq<(GridVec, u64)>,
) -> Option<Actor> {
    match owner_of(s, p.core.cell.plus_spec(d)) {
        None => None,
        Some(id) => match actor_with_id(actors, id) {
            None => None,
            Some(e) => {
                if e.alive && e.core.kind == ActorKind::Autonomous && boxes_overlap_expanded(
                    p.x as int,
                    p.y as int,
                    p.collider.width as int,
                    p.collider.height as int,
                    e.x as int,
                    e.y as int,
                    e.collider.width as int,
                    e.collider.height as int,
                ) {
                    Some(e)
                } else {
                    None
                }
            },
        },
    }
}

/// First adjacency hit from probe index `i` on: at most one fatal collision
/// is reported per tick, the remaining neighbours wait for the next tick.
pub open spec fn adjacent_hit_from(
    p: Actor,
    actors: Seq<Actor>,
    s: Seq<(GridVec, u64)>,
    i: int,
) -> Option<Actor>
    decreases 8 - i,
{
    if i >= 8 {
        None
    } else {
        match adjacent_hit(p, adjacency_dirs()[i], actors, s) {
            Some(e) => Some(e),
            None => adjacent_hit_from(p, actors, s, i + 1),
        }
    }
}

/// The fatal adjacency collision of this tick, if any: the controlled actor
/// paired with the first hostile neighbour (in probe order) whose expanded
/// boxes overlap.
pub open spec fn spec_adjacency(actors: Seq<Actor>, s: Seq<(GridVec, u64)>) -> Option<
    (Actor, Actor),
> {
    match controlled_actor(actors) {
        None => None,
        Some(p) => match adjacent_hit_from(p, actors, s, 0) {
            Some(e) => Some((p, e)),
            None => None,
        },
    }
}

/// Detect the fatal adjacency collision: probe the eight neighbours of the
/// controlled actor in fixed order and stop at the first confirmed overlap.
/// Returns the arena indices of the controlled actor and the neighbour.
pub fn detect_adjacency(actors: &Vec<Actor>, reg: &Registry) -> (r: Option<(usize, usize)>)
    requires
        forall|i: int| 0 <= i < actors@.len() ==> (#[trigger] actors@[i]).core.cell.in_coord_range(),
    ensures
        match r {
            None => spec_adjacency(actors@, reg@) is None,
            Some((pi, ei)) => {
                &&& pi < actors@.len()
                &&& ei < actors@.len()
                &&& spec_adjacency(actors@, reg@) == Some(
                    (actors@[pi as int], actors@[ei as int]),
                )
            },
        },
{
    let pi = match find_controlled(actors) {
        None => {
            return None;
        },
        Some(pi) => pi,
    };
    let p = actors[pi];
    let mut dirs: Vec<GridVec> = Vec::new();
    dirs.push(GridVec { x: 0, y: 1 });
    dirs.push(GridVec { x: 0, y: -1 });
    dirs.push(GridVec { x: -1, y: 0 });
    dirs.push(GridVec { x: 1, y: 0 });
    dirs.push(GridVec { x: -1, y: 1 });
    dirs.push(GridVec { x: 1, y: 1 });
    dirs.push(GridVec { x: -1, y: -1 });
    dirs.push(GridVec { x: 1, y: -1 });
    proof {
        assert(dirs@ =~= adjacency_dirs());
    }
    let mut i: usize = 0;
    while i < 8
        invariant
            dirs@ =~= adjacency_dirs(),
            dirs@.len() == 8,
            0 <= i <= 8,
            p == actors@[pi as int],
            pi < actors@.len(),
            controlled_actor(actors@) == Some(p),
            p.core.cell.in_coord_range(),
            adjacent_hit_from(p, actors@, reg@, 0) == adjacent_hit_from(p, actors@, reg@, i as int),
        decreases 8 - i,
    {
        let d = dirs[i];
        proof {
            assert(d.is_step());
        }
        let probe = p.core.cell.plus(d);
        match reg.occupant(probe) {
            None => {},
            Some(id) => {
                match find_actor(actors, id) {
                    None => {},
                    Some(ei) => {
                        let e = actors[ei];
                        let is_auto = match e.core.kind {
                            ActorKind::Autonomous => true,
                            _ => false,
                        };
                        if e.alive && is_auto && aabb_overlap_expanded(
                            p.x,
                            p.y,
                            p.collider.width,
                            p.collider.height,
                            e.x,
                            e.y,
                            e.collider.width,
                            e.collider.height,
                        ) {
                            proof {
                                assert(adjacent_hit(p, d, actors@, reg@) == Some(e));
                            }
                            return Some((pi, ei));
                        }
                    },
                }
            },
        }
        i = i + 1;
    }
    None
}

} // verus!
