//! Per-actor motion state machine.
//!
//! An actor is either idle (`direction` is the zero vector) or in transit
//! between its current cell and the adjacent cell `cell + direction`.
//!
//! Sub-tile progress is kept in exact integer form. An in-transit actor
//! accumulates `travel`, the distance covered since this straight run began,
//! in units of one thousandth of a world unit (`speed` world-units/second
//! times `dt` milliseconds). One leg of the run covers
//! `1000 * tile * sqrt(norm_sq(direction))` of those units, so the classical
//! `progress` fraction of the current leg is
//! `travel / (1000 * tile * sqrt(norm_sq)) - legs`, where `legs` counts the
//! legs already committed in this run. All comparisons of `progress` against
//! whole legs are carried out on squares, which keeps the diagonal
//! `sqrt 2` normalisation exact instead of approximating it.

use vstd::prelude::*;
use crate::coords::GridVec;
use crate::registry::{holds_pair, owner_of, spec_claim, spec_release, Registry};
use crate::reflect::{reflect, reflect_spec, lemma_reflect_keeps_norm};
use crate::walls::WallGrid;

verus! {

/// Milli-units of travel per world unit; `speed * dt_ms` is already in
/// milli-units because `dt` arrives in milliseconds.
pub const MS_PER_SECOND: u64 = 1000;

/// Largest accepted tile size, in world units.
pub const MAX_TILE: u32 = 65536;

/// Cap on accumulated travel; keeps every squared comparison inside `u128`.
pub const MAX_TRAVEL: u64 = 0x1000_0000_0000_0000;

/// What part an actor plays; controlled and autonomous actors reserve cells,
/// projectiles only read the registry.
#[derive(Clone, Copy, PartialEq, Eq, Structural, Debug)]
pub enum ActorKind {
    Controlled,
    Autonomous,
    Projectile,
}

pub open spec fn is_reserver(k: ActorKind) -> bool {
    k == ActorKind::Controlled || k == ActorKind::Autonomous
}

/// Wall-bounce budget of a projectile.
#[derive(Clone, Copy, PartialEq, Eq, Structural, Debug)]
pub struct Bounce {
    /// Bounces allowed when fired.
    pub initial: u32,
    /// Bounces still available.
    pub remaining: u32,
}

impl Bounce {
    /// Bounces already consumed.
    pub open spec fn used(self) -> int {
        self.initial - self.remaining
    }
}

/// The full per-actor motion record.
#[derive(Clone, Copy, PartialEq, Eq, Structural, Debug)]
pub struct Mover {
    /// Stable, opaque actor id.
    pub id: u64,
    pub kind: ActorKind,
    /// The grid cell the actor occupies or is departing from.
    pub cell: GridVec,
    /// Zero when idle, otherwise the unit-grid step being executed.
    pub direction: GridVec,
    /// Milli-units travelled since this straight run began.
    pub travel: u64,
    /// Legs of the run already committed.
    pub legs: u64,
    /// World units per second.
    pub speed: u32,
    /// Externally written desired direction, buffered independently of
    /// `direction` so a new input can arrive before the current step ends.
    pub intended: GridVec,
    /// Bounce budget, if the actor can bounce off walls.
    pub bounce: Option<Bounce>,
}

/// Milli-units that make up one orthogonal leg.
pub open spec fn milli_per_tile(tile: u32) -> int {
    MS_PER_SECOND * tile
}

/// Tile size accepted by the state machine.
pub open spec fn tile_wf(tile: u32) -> bool {
    1 <= tile <= MAX_TILE
}

/// `travel` covers at least `legs` whole legs of squared length
/// `milli_per_tile^2 * n2`: the classical progress is non-negative.
#[verifier::opaque]
pub open spec fn covers_legs(travel: int, legs: int, tile: u32, n2: int) -> bool {
    travel * travel >= (legs * milli_per_tile(tile)) * (legs * milli_per_tile(tile)) * n2
}

/// `travel` has reached the end of leg `legs + 1`: progress is at least 1.
#[verifier::opaque]
pub open spec fn leg_done(travel: int, legs: int, tile: u32, n2: int) -> bool {
    travel * travel >= ((legs + 1) * milli_per_tile(tile)) * ((legs + 1) * milli_per_tile(tile))
        * n2
}

impl Mover {
    /// Structural well-formedness of a motion record, relative to the tile
    /// size it is integrated against.
    pub open spec fn wf(self, tile: u32) -> bool {
        &&& self.direction.is_step()
        &&& self.intended.is_step()
        &&& self.cell.in_coord_range()
        &&& self.travel <= MAX_TRAVEL
        &&& match self.bounce {
            Some(b) => b.remaining <= b.initial,
            None => true,
        }
        &&& self.direction.is_origin() ==> self.travel == 0 && self.legs == 0
        &&& !self.direction.is_origin() ==> {
            &&& self.cell.plus_spec(self.direction).in_coord_range()
            &&& covers_legs(self.travel as int, self.legs as int, tile, self.direction.norm_sq())
        }
    }

    /// Progress strictly below 1: the resting place of every state between
    /// ticks. (A large enough time step can transiently push progress past 1;
    /// resolution folds one leg back per tick.)
    pub open spec fn progress_below_one(self, tile: u32) -> bool {
        self.direction.is_origin() || !leg_done(
            self.travel as int,
            self.legs as int,
            tile,
            self.direction.norm_sq(),
        )
    }

    /// The cell this actor answers for: its own cell when idle, its transit
    /// destination when moving.
    pub open spec fn footprint(self) -> GridVec {
        if self.direction.is_origin() {
            self.cell
        } else {
            self.cell.plus_spec(self.direction)
        }
    }

    /// Whether the actor may consume a bounce.
    pub open spec fn can_bounce(self) -> bool {
        match self.bounce {
            Some(b) => b.remaining > 0,
            None => false,
        }
    }

    /// Bounces consumed so far (zero when the actor has no budget at all).
    pub open spec fn bounces_used(self) -> int {
        match self.bounce {
            Some(b) => b.used(),
            None => 0,
        }
    }
}

/// A unit step that is not the origin has squared length 1 or 2.
pub proof fn lemma_step_norm(d: GridVec)
    requires
        d.is_step(),
    ensures
        d.is_origin() ==> d.norm_sq() == 0,
        !d.is_origin() ==> 1 <= d.norm_sq() <= 2,
{
    assert(d.x * d.x == if d.x == 0 { 0int } else { 1int }) by (nonlinear_arith)
        requires
            -1 <= d.x <= 1,
    ;
    assert(d.y * d.y == if d.y == 0 { 0int } else { 1int }) by (nonlinear_arith)
        requires
            -1 <= d.y <= 1,
    ;
}

/// Squaring keeps order on non-negative numbers.
pub proof fn lemma_sq_mono(a: int, b: int)
    requires
        0 <= a <= b,
    ensures
        a * a <= b * b,
{
    assert(a * a <= b * b) by (nonlinear_arith)
        requires
            0 <= a <= b,
    ;
}

/// If the square (scaled by a positive factor) is bounded, so is the number.
pub proof fn lemma_sq_bound(a: int, b: int, n: int)
    requires
        0 <= a,
        0 <= b,
        1 <= n,
        b * b * n <= a * a,
    ensures
        b <= a,
{
    if a < b {
        assert(a * a < b * b * n) by (nonlinear_arith)
            requires
                0 <= a < b,
                1 <= n,
        ;
    }
}

/// One tick that covers at most one orthogonal leg keeps progress below 1:
/// from progress below 1 before the increment and an increment of at most
/// one leg, the next whole-leg boundary is not crossed.
pub proof fn lemma_progress_step(a: int, c: int, k: int, legs: int, n: int)
    requires
        0 <= a,
        0 <= c <= k,
        1 <= k,
        0 <= legs,
        1 <= n <= 2,
        a * a < ((legs + 1) * k) * ((legs + 1) * k) * n,
    ensures
        (a + c) * (a + c) < ((legs + 2) * k) * ((legs + 2) * k) * n,
{
    let b = (legs + 1) * k;
    assert(k <= b) by (nonlinear_arith)
        requires
            b == (legs + 1) * k,
            0 <= legs,
            1 <= k,
    ;
    assert(a < b * n) by {
        assert(b * b * n <= (b * n) * (b * n)) by (nonlinear_arith)
            requires
                0 <= b,
                1 <= n,
        ;
        if a >= b * n {
            assert((b * n) * (b * n) <= a * a) by (nonlinear_arith)
                requires
                    0 <= b * n <= a,
            ;
        }
    }
    assert((a + c) * (a + c) < (b + k) * (b + k) * n) by (nonlinear_arith)
        requires
            0 <= a,
            0 <= c <= k,
            1 <= k <= b,
            1 <= n,
            a * a < b * b * n,
            a < b * n,
    ;
    assert((legs + 2) * k == b + k) by (nonlinear_arith)
        requires
            b == (legs + 1) * k,
    ;
}

/// Exact whole-leg comparison: `travel` squared against the squared length of
/// `legs + 1` legs.
pub fn leg_complete(travel: u64, legs: u64, tile: u32, n2: u64) -> (r: bool)
    requires
        tile_wf(tile),
        travel <= MAX_TRAVEL,
        n2 == 1 || n2 == 2,
        legs * milli_per_tile(tile) <= MAX_TRAVEL,
    ensures
        r == leg_done(travel as int, legs as int, tile, n2 as int),
{
    proof {
        reveal(leg_done);
    }
    let k: u64 = MS_PER_SECOND * (tile as u64);
    proof {
        assert((legs + 1) * k == legs * k + k) by (nonlinear_arith);
    }
    let lk: u128 = ((legs as u128) + 1) * (k as u128);
    proof {
        assert(lk <= MAX_TRAVEL + 66_000_000);
        assert(lk * lk * n2 <= u128::MAX) by (nonlinear_arith)
            requires
                0 <= lk <= 0x2000_0000_0000_0000u128,
                0 <= n2 <= 2,
        ;
        assert((travel as u128) * (travel as u128) <= u128::MAX) by (nonlinear_arith)
            requires
                0 <= travel <= 0x1000_0000_0000_0000u128,
        ;
    }
    let lhs: u128 = (travel as u128) * (travel as u128);
    let rhs: u128 = lk * lk * (n2 as u128);
    lhs >= rhs
}


/// The state machine's full effect on one actor: its new motion record, the
/// registry contents afterwards, and whether the actor is destroyed (a
/// projectile stopped by a wall with no bounce budget left).
pub struct StepEffect {
    pub mover: Mover,
    pub entries: Seq<(GridVec, u64)>,
    pub despawn: bool,
}

pub open spec fn origin() -> GridVec {
    GridVec { x: 0, y: 0 }
}

/// Decrement of a bounce budget.
pub open spec fn spent_bounce(b: Option<Bounce>) -> Option<Bounce> {
    match b {
        Some(b) => Some(Bounce { initial: b.initial, remaining: (b.remaining - 1) as u32 }),
        None => None,
    }
}

/// An idle actor may not start towards `cell + intended` when the target is a
/// wall, or when the actor reserves cells and the target is reserved by
/// someone else. (A cell reserved by the actor itself does not block it.)
pub open spec fn start_refused(m: Mover, w: WallGrid, s: Seq<(GridVec, u64)>) -> bool {
    let target = m.cell.plus_spec(m.intended);
    w.wall_at(target) || (is_reserver(m.kind) && match owner_of(s, target) {
        Some(o) => o != m.id,
        None => false,
    })
}

/// Transition of an idle actor: consume the buffered intent if its target is
/// open; a reserver claims the destination for the whole transit the moment
/// it commits to moving.
pub open spec fn spec_step_idle(m: Mover, s: Seq<(GridVec, u64)>, w: WallGrid) -> StepEffect {
    if m.intended.is_origin() || start_refused(m, w, s) {
        StepEffect { mover: m, entries: s, despawn: false }
    } else {
        StepEffect {
            mover: Mover { direction: m.intended, travel: 0, legs: 0, ..m },
            entries: if is_reserver(m.kind) {
                spec_claim(s, m.cell.plus_spec(m.intended), m.id)
            } else {
                s
            },
            despawn: false,
        }
    }
}

/// Transition of an in-transit actor: integrate travel; on arrival commit the
/// new cell, release the departed cell (guarded), then either carry straight
/// on, bounce, stop, or adopt the changed intent.
///
/// A bounce keeps `travel` and counts one more finished leg; because
/// reflection preserves the step length, the classical rescale of the excess
/// progress by the ratio of old to new direction length is exactly 1.
pub open spec fn spec_step_transit(
    m: Mover,
    s: Seq<(GridVec, u64)>,
    w: WallGrid,
    tile: u32,
    dt_ms: u32,
) -> StepEffect {
    let t2 = (m.travel + m.speed * dt_ms) as u64;
    let n2 = m.direction.norm_sq();
    if !leg_done(t2 as int, m.legs as int, tile, n2) {
        StepEffect { mover: Mover { travel: t2, ..m }, entries: s, despawn: false }
    } else {
        let newcell = m.cell.plus_spec(m.direction);
        let s1 = if is_reserver(m.kind) {
            spec_release(s, m.cell, m.id)
        } else {
            s
        };
        if m.intended == m.direction {
            if !w.wall_at(newcell.plus_spec(m.direction)) {
                StepEffect {
                    mover: Mover { cell: newcell, travel: t2, legs: (m.legs + 1) as u64, ..m },
                    entries: s1,
                    despawn: false,
                }
            } else if m.can_bounce() {
                let nd = reflect_spec(m.direction, newcell, w);
                StepEffect {
                    mover: Mover {
                        cell: newcell,
                        direction: nd,
                        intended: nd,
                        travel: t2,
                        legs: (m.legs + 1) as u64,
                        bounce: spent_bounce(m.bounce),
                        ..m
                    },
                    entries: s1,
                    despawn: false,
                }
            } else {
                StepEffect {
                    mover: Mover {
                        cell: newcell,
                        direction: origin(),
                        intended: origin(),
                        travel: 0,
                        legs: 0,
                        ..m
                    },
                    entries: s1,
                    despawn: m.kind == ActorKind::Projectile,
                }
            }
        } else {
            let nd = if m.intended.is_origin() || w.wall_at(newcell.plus_spec(m.intended)) {
                origin()
            } else {
                m.intended
            };
            StepEffect {
                mover: Mover { cell: newcell, direction: nd, travel: 0, legs: 0, ..m },
                entries: s1,
                despawn: false,
            }
        }
    }
}

/// One tick of the motion state machine for one actor.
#[verifier::opaque]
pub open spec fn spec_step(
    m: Mover,
    s: Seq<(GridVec, u64)>,
    w: WallGrid,
    tile: u32,
    dt_ms: u32,
) -> StepEffect {
    if m.direction.is_origin() {
        spec_step_idle(m, s, w)
    } else {
        spec_step_transit(m, s, w, tile, dt_ms)
    }
}

/// Whether this actor kind takes part in the reservation registry.
pub fn kind_reserves(k: ActorKind) -> (r: bool)
    ensures
        r == is_reserver(k),
{
    match k {
        ActorKind::Controlled => true,
        ActorKind::Autonomous => true,
        ActorKind::Projectile => false,
    }
}

/// Advance one actor by one tick of `dt_ms` milliseconds, exactly as
/// `spec_step` describes: start buffered movement with wall and reservation
/// gating, or integrate travel and resolve an arrival (continue, bounce,
/// stop, or turn). Returns whether the actor was destroyed by the impact (a
/// projectile out of bounce budget).
pub fn step_mover(
    m: &mut Mover,
    walls: &WallGrid,
    reg: &mut Registry,
    tile: u32,
    dt_ms: u32,
) -> (despawn: bool)
    requires
        old(m).wf(tile),
        tile_wf(tile),
        walls.wf(),
        old(reg).wf(),
        old(m).travel + old(m).speed * dt_ms <= MAX_TRAVEL,
    ensures
        final(m).wf(tile),
        final(reg).wf(),
        *final(m) == spec_step(*old(m), old(reg)@, *walls, tile, dt_ms).mover,
        final(reg)@ == spec_step(*old(m), old(reg)@, *walls, tile, dt_ms).entries,
        despawn == spec_step(*old(m), old(reg)@, *walls, tile, dt_ms).despawn,
        old(m).progress_below_one(tile) && old(m).speed * dt_ms <= milli_per_tile(tile)
            ==> final(m).progress_below_one(tile),
{
    let ghost m0 = *old(m);
    let ghost s0 = old(reg)@;
    proof {
        reveal(spec_step);
        reveal(covers_legs);
        reveal(leg_done);
        lemma_step_norm(m0.direction);
    }
    if m.direction.is_zero() {
        if m.intended.is_zero() {
            return false;
        }
        let target = m.cell.plus(m.intended);
        if walls.is_wall(target) {
            return false;
        }
        if kind_reserves(m.kind) {
            match reg.occupant(target) {
                Some(o) => {
                    if o != m.id {
                        return false;
                    }
                },
                None => {},
            }
            m.direction = m.intended;
            m.travel = 0;
            m.legs = 0;
            reg.claim(target, m.id);
        } else {
            m.direction = m.intended;
            m.travel = 0;
            m.legs = 0;
        }
        proof {
            lemma_step_norm(m0.intended);
            reveal(covers_legs);
            reveal(leg_done);
            assert(0 * milli_per_tile(tile) == 0) by (nonlinear_arith);
            assert(covers_legs(0, 0, tile, m0.intended.norm_sq()));
            assert(milli_per_tile(tile) * milli_per_tile(tile) * m0.intended.norm_sq() > 0)
                by (nonlinear_arith)
                requires
                    1 <= milli_per_tile(tile),
                    1 <= m0.intended.norm_sq(),
            ;
            assert((0 + 1) * milli_per_tile(tile) == milli_per_tile(tile)) by (nonlinear_arith);
            assert(!leg_done(0, 0, tile, m0.intended.norm_sq()));
        }
        return false;
    }
    // In transit; the direction is a non-zero unit step.
    let ghost n2g = m0.direction.norm_sq();
    let ghost k = milli_per_tile(tile);
    proof {
        // legs * k fits under the travel cap.
        lemma_sq_bound(m0.travel as int, m0.legs * k, n2g);
        assert(m0.legs <= m0.legs * k) by (nonlinear_arith)
            requires
                1 <= k,
                0 <= m0.legs,
        ;
    }
    let inc: u64 = (m.speed as u64) * (dt_ms as u64);
    let t2: u64 = m.travel + inc;
    let n2: u64 = m.direction.step_norm_sq();
    let arrived = leg_complete(t2, m.legs, tile, n2);
    m.travel = t2;
    if !arrived {
        proof {
            lemma_sq_mono(m0.travel as int, t2 as int);
            assert((m0.legs * k) * (m0.legs * k) * n2g <= t2 * t2);
        }
        return false;
    }
    // Arrival: commit the destination cell and release the departed cell.
    let old_cell = m.cell;
    let newcell = m.cell.plus(m.direction);
    m.cell = newcell;
    if kind_reserves(m.kind) {
        reg.release(old_cell, m.id);
    }
    proof {
        assert((m0.legs + 1) <= m0.legs * k + k) by (nonlinear_arith)
            requires
                1 <= k,
                0 <= m0.legs,
        ;
    }
    if m.intended.x == m.direction.x && m.intended.y == m.direction.y {
        let ahead = newcell.plus(m.direction);
        if !walls.is_wall(ahead) {
            // Carry the excess progress into the next leg: no stutter at the
            // tile boundary.
            m.legs = m.legs + 1;
            proof {
                assert((((m0.legs + 1) as u64) * k) * (((m0.legs + 1) as u64) * k) * n2g
                    <= t2 * t2);
                if m0.progress_below_one(tile) && m0.speed * dt_ms <= k {
                    lemma_progress_step(m0.travel as int, m0.speed * dt_ms, k, m0.legs as int, n2g);
                }
            }
            return false;
        }
        let can_b = match m.bounce {
            Some(b) => b.remaining > 0,
            None => false,
        };
        if can_b {
            // Bounce: adopt the reflected direction for both the executed and
            // the intended direction, and consume one bounce.
            let nd = reflect(m.direction, newcell, walls);
            m.direction = nd;
            m.intended = nd;
            m.legs = m.legs + 1;
            if let Some(b) = m.bounce {
                m.bounce = Some(Bounce { initial: b.initial, remaining: b.remaining - 1 });
            }
            proof {
                lemma_reflect_keeps_norm(m0.direction, m0.cell.plus_spec(m0.direction), *walls);
                assert((((m0.legs + 1) as u64) * k) * (((m0.legs + 1) as u64) * k) * n2g
                    <= t2 * t2);
                if m0.progress_below_one(tile) && m0.speed * dt_ms <= k {
                    lemma_progress_step(m0.travel as int, m0.speed * dt_ms, k, m0.legs as int, n2g);
                }
                // The new transit destination stays inside the coordinate
                // range: a clear probe cell pins one axis inside the map, and
                // a corner reversal returns to the departed cell.
                let hz = GridVec { x: (newcell.x + m0.direction.x) as i32, y: newcell.y };
                let vt = GridVec { x: newcell.x, y: (newcell.y + m0.direction.y) as i32 };
                if !walls.wall_at(hz) {
                    assert(newcell.plus_spec(nd).in_coord_range()) by {
                        assert(0 <= hz.x < walls.width);
                        assert(0 <= newcell.y < walls.height);
                    }
                } else if !walls.wall_at(vt) {
                    assert(0 <= vt.y < walls.height);
                    assert(0 <= newcell.x < walls.width);
                } else {
                    assert(newcell.plus_spec(nd) == m0.cell);
                }
            }
            return false;
        }
        // No bounce budget: stop dead; a projectile is destroyed on impact.
        m.direction = GridVec::zero();
        m.intended = GridVec::zero();
        m.travel = 0;
        m.legs = 0;
        let is_proj = match m.kind {
            ActorKind::Projectile => true,
            _ => false,
        };
        return is_proj;
    }
    // The intent changed at the boundary: reset progress; adopt the new
    // direction at once when it is open, otherwise go idle.
    m.travel = 0;
    m.legs = 0;
    if !m.intended.is_zero() {
        let tgt = newcell.plus(m.intended);
        if !walls.is_wall(tgt) {
            m.direction = m.intended;
            proof {
                lemma_step_norm(m0.intended);
                reveal(covers_legs);
                reveal(leg_done);
                assert(0 * milli_per_tile(tile) == 0) by (nonlinear_arith);
                assert(covers_legs(0, 0, tile, m0.intended.norm_sq()));
                assert(milli_per_tile(tile) * milli_per_tile(tile) * m0.intended.norm_sq() > 0)
                    by (nonlinear_arith)
                    requires
                        1 <= milli_per_tile(tile),
                        1 <= m0.intended.norm_sq(),
                ;
                assert((0 + 1) * milli_per_tile(tile) == milli_per_tile(tile)) by (nonlinear_arith);
                assert(!leg_done(0, 0, tile, m0.intended.norm_sq()));
            }
        } else {
            m.direction = GridVec::zero();
        }
    } else {
        m.direction = GridVec::zero();
    }
    false
}


/// A step never changes who the actor is: id, kind and speed are untouched.
pub proof fn lemma_step_keeps_identity(
    m: Mover,
    s: Seq<(GridVec, u64)>,
    w: WallGrid,
    tile: u32,
    dt_ms: u32,
)
    ensures
        spec_step(m, s, w, tile, dt_ms).mover.id == m.id,
        spec_step(m, s, w, tile, dt_ms).mover.kind == m.kind,
        spec_step(m, s, w, tile, dt_ms).mover.speed == m.speed,
{
    reveal(spec_step);
}


/// A reserver holds a reservation on the cell it answers for: its own cell
/// when idle, its transit destination when moving.
pub open spec fn self_reserved(m: Mover, s: Seq<(GridVec, u64)>) -> bool {
    holds_pair(s, m.footprint(), m.id)
}

/// This tick does not carry the actor across a tile boundary straight into a
/// further leg: it is idle, or does not arrive, or arrives and stops (a wall
/// with no bounce budget), or arrives and goes idle on a changed intent.
/// Continuations, bounces and immediate turns are the excluded roll-overs:
/// they adopt a destination that is never claimed and run on the strength of
/// the wall gate alone.
pub open spec fn no_rollover(m: Mover, w: WallGrid, tile: u32, dt_ms: u32) -> bool {
    let t2 = (m.travel + m.speed * dt_ms) as u64;
    let newcell = m.cell.plus_spec(m.direction);
    ||| m.direction.is_origin()
    ||| !leg_done(t2 as int, m.legs as int, tile, m.direction.norm_sq())
    ||| (m.intended == m.direction && w.wall_at(newcell.plus_spec(m.direction))
        && !m.can_bounce())
    ||| (m.intended != m.direction && (m.intended.is_origin() || w.wall_at(
        newcell.plus_spec(m.intended),
    )))
}

/// A reserver that begins to move claims its destination for the whole
/// transit, and a reserver's self-reservation survives its own step whenever
/// the step does not roll straight into a further leg at an arrival.
pub proof fn lemma_step_keeps_self_reservation(
    m: Mover,
    s: Seq<(GridVec, u64)>,
    w: WallGrid,
    tile: u32,
    dt_ms: u32,
)
    requires
        crate::registry::cells_unique(s),
        is_reserver(m.kind),
        self_reserved(m, s),
        m.direction.is_step(),
        m.cell.in_coord_range(),
        no_rollover(m, w, tile, dt_ms),
    ensures
        crate::registry::cells_unique(spec_step(m, s, w, tile, dt_ms).entries),
        self_reserved(spec_step(m, s, w, tile, dt_ms).mover, spec_step(m, s, w, tile, dt_ms).entries),
{
    reveal(spec_step);
    let e = spec_step(m, s, w, tile, dt_ms);
    if m.direction.is_origin() {
        if m.intended.is_origin() || start_refused(m, w, s) {
        } else {
            let target = m.cell.plus_spec(m.intended);
            crate::registry::lemma_claim_effect(s, target, m.id);
        }
    } else {
        let t2 = (m.travel + m.speed * dt_ms) as u64;
        if !leg_done(t2 as int, m.legs as int, tile, m.direction.norm_sq()) {
        } else {
            // The step ends idle at the committed destination: the departed
            // cell's entry is released, the destination entry stays.
            let newcell = m.cell.plus_spec(m.direction);
            crate::registry::lemma_release_effect(s, m.cell, m.id);
            assert(m.cell != newcell) by {
                assert(m.direction.x != 0 || m.direction.y != 0);
            }
            assert(e.mover.footprint() == newcell);
            assert(holds_pair(e.entries, newcell, m.id));
        }
    }
}

/// No actor's step can disturb a reservation held by someone else: a start is
/// gated on the cell being free or the actor's own, a release is guarded by
/// ownership, and nothing else writes the registry.
pub proof fn lemma_step_preserves_other_reservation(
    m: Mover,
    s: Seq<(GridVec, u64)>,
    w: WallGrid,
    tile: u32,
    dt_ms: u32,
    c: GridVec,
    id: u64,
)
    requires
        crate::registry::cells_unique(s),
        holds_pair(s, c, id),
        id != m.id,
    ensures
        holds_pair(spec_step(m, s, w, tile, dt_ms).entries, c, id),
{
    reveal(spec_step);
    crate::registry::lemma_owner_is_pair(s, c, id);
    if m.direction.is_origin() {
        if m.intended.is_origin() || start_refused(m, w, s) {
        } else {
            let target = m.cell.plus_spec(m.intended);
            if is_reserver(m.kind) {
                assert(c != target);
                crate::registry::lemma_claim_effect(s, target, m.id);
            }
        }
    } else {
        let t2 = (m.travel + m.speed * dt_ms) as u64;
        if !leg_done(t2 as int, m.legs as int, tile, m.direction.norm_sq()) {
        } else {
            if is_reserver(m.kind) {
                crate::registry::lemma_release_effect(s, m.cell, m.id);
                if c == m.cell {
                    if holds_pair(s, m.cell, m.id) {
                        crate::registry::lemma_single_owner(s, m.cell, id, m.id);
                    }
                }
            }
        }
    }
}

/// An actor that does not take part in the registry leaves it untouched.
pub proof fn lemma_step_nonreserver_entries(
    m: Mover,
    s: Seq<(GridVec, u64)>,
    w: WallGrid,
    tile: u32,
    dt_ms: u32,
)
    requires
        !is_reserver(m.kind),
    ensures
        spec_step(m, s, w, tile, dt_ms).entries == s,
{
    reveal(spec_step);
}

/// A reserver never despawns in the motion stage: only a projectile is
/// destroyed by a wall impact.
pub proof fn lemma_step_despawn_is_projectile(
    m: Mover,
    s: Seq<(GridVec, u64)>,
    w: WallGrid,
    tile: u32,
    dt_ms: u32,
)
    ensures
        spec_step(m, s, w, tile, dt_ms).despawn ==> m.kind == ActorKind::Projectile,
{
    reveal(spec_step);
}
} // verus!
