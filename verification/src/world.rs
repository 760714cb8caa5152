//! The per-tick pipeline over an arena of actors.
//!
//! One tick runs in a fixed order: the motion state machine (the only stage
//! that mutates motion state and the registry), the externally supplied
//! world-position projection, the read-only collision detectors against the
//! now-committed reservations, the consumption of the emitted events, and
//! last the registry sweep that purges entries of despawned actors. Running
//! the stages in any other order would detect against one-tick-stale data.

use vstd::prelude::*;
use crate::actors::{
    actor_with_id, dead_ids_of, has_id, idx_with_id, ids_unique, lemma_first_with_id_exists,
    live_only, Actor, Collider,
};
use crate::collide::{
    detect_adjacency, detect_impacts, spec_adjacency, spec_impacts, ProjectileImpact,
};
use crate::coords::GridVec;
use crate::motion::{
    is_reserver, milli_per_tile, spec_step, step_mover, tile_wf, ActorKind, Mover, MAX_TRAVEL,
};
use crate::registry::{spec_claim, spec_sweep, Registry};
use crate::walls::WallGrid;

verus! {

/// A fatal collision reported for one actor, with its projected position.
#[derive(Clone, Copy, PartialEq, Eq, Structural, Debug)]
pub struct ActorDeath {
    pub id: u64,
    pub x: i64,
    pub y: i64,
}

/// Everything one tick emits, consumed by the caller before the next tick.
pub struct TickEvents {
    pub impacts: Vec<ProjectileImpact>,
    pub deaths: Vec<ActorDeath>,
}

/// The registry contents after the first `n` arena slots have taken their
/// motion step, in slot order (dead slots are skipped).
#[verifier::opaque]
pub open spec fn regs_after(
    actors: Seq<Actor>,
    s: Seq<(GridVec, u64)>,
    w: WallGrid,
    tile: u32,
    dt_ms: u32,
    n: int,
) -> Seq<(GridVec, u64)>
    decreases n,
{
    if n <= 0 {
        s
    } else {
        let prev = regs_after(actors, s, w, tile, dt_ms, n - 1);
        if actors[n - 1].alive {
            spec_step(actors[n - 1].core, prev, w, tile, dt_ms).entries
        } else {
            prev
        }
    }
}

/// Slot `i` after the motion stage: stepped against the registry as the
/// slots before it left it.
#[verifier::opaque]
pub open spec fn stepped_actor(
    actors: Seq<Actor>,
    s: Seq<(GridVec, u64)>,
    w: WallGrid,
    tile: u32,
    dt_ms: u32,
    i: int,
) -> Actor {
    let a = actors[i];
    if a.alive {
        let e = spec_step(a.core, regs_after(actors, s, w, tile, dt_ms, i), w, tile, dt_ms);
        Actor { core: e.mover, alive: !e.despawn, ..a }
    } else {
        a
    }
}

/// The whole arena after the motion stage.
#[verifier::opaque]
pub open spec fn motion_all(
    actors: Seq<Actor>,
    s: Seq<(GridVec, u64)>,
    w: WallGrid,
    tile: u32,
    dt_ms: u32,
) -> Seq<Actor> {
    Seq::new(actors.len(), |i: int| stepped_actor(actors, s, w, tile, dt_ms, i))
}

/// The arena with the externally projected world positions written in.
pub open spec fn with_positions(actors: Seq<Actor>, pos: Seq<(i64, i64)>) -> Seq<Actor> {
    Seq::new(actors.len(), |i: int| Actor { x: pos[i].0, y: pos[i].1, ..actors[i] })
}

/// The same actor, despawned.
pub open spec fn dead_copy(a: Actor) -> Actor {
    Actor { alive: false, ..a }
}

/// The death event a projectile impact causes, read against the snapshot the
/// detectors saw: a victim that is gone from the arena, or a fellow
/// projectile, despawns without a death event.
pub open spec fn impact_death(snapshot: Seq<Actor>, im: ProjectileImpact) -> Option<ActorDeath> {
    match actor_with_id(snapshot, im.victim) {
        Some(v) => if v.alive && v.core.kind != ActorKind::Projectile {
            Some(ActorDeath { id: im.victim, x: v.x, y: v.y })
        } else {
            None
        },
        None => None,
    }
}

/// Death events of the first `n` impacts, in impact order.
pub open spec fn impact_deaths_upto(
    snapshot: Seq<Actor>,
    ims: Seq<ProjectileImpact>,
    n: int,
) -> Seq<ActorDeath>
    decreases n,
{
    if n <= 0 {
        Seq::empty()
    } else {
        let pre = impact_deaths_upto(snapshot, ims, n - 1);
        match impact_death(snapshot, ims[n - 1]) {
            Some(d) => pre.push(d),
            None => pre,
        }
    }
}

/// Whether one impact despawns this actor: every impact despawns its
/// projectile, and its victim when the victim is not itself a projectile.
pub open spec fn impact_kills(a: Actor, im: ProjectileImpact) -> bool {
    im.projectile == a.core.id || (im.victim == a.core.id && a.core.kind != ActorKind::Projectile)
}

pub open spec fn killed_by(a: Actor, ims: Seq<ProjectileImpact>) -> bool {
    exists|j: int| 0 <= j < ims.len() && impact_kills(a, ims[j])
}

/// The arena after the impact events are consumed.
pub open spec fn mark_impacts(snapshot: Seq<Actor>, ims: Seq<ProjectileImpact>) -> Seq<Actor> {
    Seq::new(
        snapshot.len(),
        |i: int|
            if killed_by(snapshot[i], ims) {
                dead_copy(snapshot[i])
            } else {
                snapshot[i]
            },
    )
}

/// The arena after a fatal adjacency collision is consumed: both sides
/// despawn.
pub open spec fn mark_pair(s: Seq<Actor>, adj: Option<(Actor, Actor)>) -> Seq<Actor> {
    match adj {
        None => s,
        Some((p, e)) => Seq::new(
            s.len(),
            |i: int|
                if s[i].core.id == p.core.id || s[i].core.id == e.core.id {
                    dead_copy(s[i])
                } else {
                    s[i]
                },
        ),
    }
}

/// The death-event pair of a fatal adjacency collision: one event per side,
/// controlled actor first.
pub open spec fn adjacency_deaths(adj: Option<(Actor, Actor)>) -> Seq<ActorDeath> {
    match adj {
        None => Seq::empty(),
        Some((p, e)) => seq![
            ActorDeath { id: p.core.id, x: p.x, y: p.y },
            ActorDeath { id: e.core.id, x: e.x, y: e.y },
        ],
    }
}

/// The full outcome of one tick.
pub struct TickOutcome {
    pub actors: Seq<Actor>,
    pub entries: Seq<(GridVec, u64)>,
    pub impacts: Seq<ProjectileImpact>,
    pub deaths: Seq<ActorDeath>,
}

/// One tick of the fixed pipeline: motion, projection, detection on the
/// committed state, event consumption, sweep, and the purge of despawned
/// slots.
#[verifier::opaque]
pub open spec fn spec_tick(
    actors: Seq<Actor>,
    s: Seq<(GridVec, u64)>,
    w: WallGrid,
    tile: u32,
    dt_ms: u32,
    pos: Seq<(i64, i64)>,
) -> TickOutcome {
    let moved = motion_all(actors, s, w, tile, dt_ms);
    let s1 = regs_after(actors, s, w, tile, dt_ms, actors.len() as int);
    let placed = with_positions(moved, pos);
    let ims = spec_impacts(placed, s1);
    let adj = spec_adjacency(placed, s1);
    let deaths = impact_deaths_upto(placed, ims, ims.len() as int) + adjacency_deaths(adj);
    let marked = mark_pair(mark_impacts(placed, ims), adj);
    let s2 = spec_sweep(s1, dead_ids_of(marked));
    TickOutcome { actors: live_only(marked), entries: s2, impacts: ims, deaths }
}

/// Gluing fact: an arena that agrees with `stepped_actor` slot by slot is
/// the motion stage's result.
proof fn lemma_is_motion_all(
    a2: Seq<Actor>,
    a0: Seq<Actor>,
    s0: Seq<(GridVec, u64)>,
    w: WallGrid,
    tile: u32,
    dt_ms: u32,
)
    requires
        a2.len() == a0.len(),
        forall|i: int| 0 <= i < a0.len() ==> a2[i] == stepped_actor(a0, s0, w, tile, dt_ms, i),
    ensures
        a2 == motion_all(a0, s0, w, tile, dt_ms),
{
    reveal(motion_all);
    assert(a2 =~= motion_all(a0, s0, w, tile, dt_ms));
}

/// The projection stage only moves positions: cores and liveness stay.
proof fn lemma_with_positions_cores(a: Seq<Actor>, pos: Seq<(i64, i64)>)
    ensures
        with_positions(a, pos).len() == a.len(),
        forall|t: int|
            0 <= t < a.len() ==> (#[trigger] with_positions(a, pos)[t]).core == a[t].core
                && with_positions(a, pos)[t].alive == a[t].alive,
{
}

/// Consuming impacts only clears liveness: cores and positions stay.
proof fn lemma_mark_impacts_cores(a: Seq<Actor>, ims: Seq<ProjectileImpact>)
    ensures
        mark_impacts(a, ims).len() == a.len(),
        forall|t: int|
            0 <= t < a.len() ==> (#[trigger] mark_impacts(a, ims)[t]).core == a[t].core
                && mark_impacts(a, ims)[t].x == a[t].x && mark_impacts(a, ims)[t].y == a[t].y,
{
}

/// Despawning the two sides of an adjacency collision slot by slot is the
/// same as marking them by id, because ids are unique.
proof fn lemma_adjacency_marks(
    placed: Seq<Actor>,
    marked: Seq<Actor>,
    result: Seq<Actor>,
    p: Actor,
    e: Actor,
    pi: int,
    ei: int,
)
    requires
        ids_unique(placed),
        marked.len() == placed.len(),
        forall|t: int| 0 <= t < placed.len() ==> (#[trigger] marked[t]).core == placed[t].core,
        0 <= pi < placed.len(),
        0 <= ei < placed.len(),
        p == placed[pi],
        e == placed[ei],
        result == marked.update(pi, dead_copy(marked[pi])).update(ei, dead_copy(marked[ei])),
    ensures
        result == mark_pair(marked, Some((p, e))),
{
    let m2 = mark_pair(marked, Some((p, e)));
    assert forall|t: int| 0 <= t < placed.len() implies result[t] == m2[t] by {
        if marked[t].core.id == p.core.id {
            assert(placed[t].core.id == placed[pi].core.id);
            assert(t == pi);
        }
        if marked[t].core.id == e.core.id {
            assert(placed[t].core.id == placed[ei].core.id);
            assert(t == ei);
        }
        if t == pi || t == ei {
        } else {
            assert(result[t] == marked[t]);
        }
    }
    assert(result =~= m2);
}

/// The slots that survive the purge are well-formed and uniquely numbered
/// whenever the pre-purge arena was.
proof fn lemma_purged_wf(marked2: Seq<Actor>, tile: u32)
    requires
        ids_unique(marked2),
        forall|t: int| 0 <= t < marked2.len() ==> (#[trigger] marked2[t]).core.wf(tile),
    ensures
        ids_unique(live_only(marked2)),
        forall|t: int|
            0 <= t < live_only(marked2).len() ==> (#[trigger] live_only(marked2)[t]).core.wf(tile),
{
    crate::actors::lemma_live_only_unique(marked2);
    crate::actors::lemma_live_only_membership(marked2);
    assert forall|t: int| 0 <= t < live_only(marked2).len() implies (#[trigger] live_only(
        marked2,
    )[t]).core.wf(tile) by {
        assert(live_only(marked2).contains(live_only(marked2)[t]));
        let k = choose|k: int| 0 <= k < marked2.len() && marked2[k] == live_only(marked2)[t];
        assert(marked2[k].core.wf(tile));
    }
}

/// Every live reserver answers for a cell the registry maps to it: its own
/// cell when idle, its transit destination when moving.
pub open spec fn arena_self_reserved(actors: Seq<Actor>, s: Seq<(GridVec, u64)>) -> bool {
    forall|i: int|
        0 <= i < actors.len() && (#[trigger] actors[i]).alive && is_reserver(
            actors[i].core.kind,
        ) ==> crate::motion::self_reserved(actors[i].core, s)
}

/// The registry invariant across the motion stage: starting from unique
/// owners with every live reserver holding its footprint, and with no actor
/// rolling into a fresh leg at an arrival this tick, stepping the first `n`
/// slots keeps at most one owner per cell and leaves every live reserver
/// holding the footprint of its stepped state. (A roll-over — carrying
/// straight on, bouncing, or turning at the boundary — adopts a destination
/// that is never claimed, and is the one way a reserver's destination can go
/// unreserved.)
pub proof fn lemma_motion_keeps_reservations(
    actors: Seq<Actor>,
    s: Seq<(GridVec, u64)>,
    w: WallGrid,
    tile: u32,
    dt_ms: u32,
    n: int,
)
    requires
        0 <= n <= actors.len(),
        crate::registry::cells_unique(s),
        ids_unique(actors),
        arena_self_reserved(actors, s),
        forall|i: int|
            0 <= i < actors.len() ==> (#[trigger] actors[i]).core.direction.is_step()
                && actors[i].core.cell.in_coord_range(),
        forall|i: int|
            0 <= i < actors.len() && (#[trigger] actors[i]).alive ==> crate::motion::no_rollover(
                actors[i].core,
                w,
                tile,
                dt_ms,
            ),
    ensures
        crate::registry::cells_unique(regs_after(actors, s, w, tile, dt_ms, n)),
        forall|i: int|
            0 <= i < n && (#[trigger] actors[i]).alive && is_reserver(actors[i].core.kind)
                ==> crate::motion::self_reserved(
                stepped_actor(actors, s, w, tile, dt_ms, i).core,
                regs_after(actors, s, w, tile, dt_ms, n),
            ),
        forall|i: int|
            n <= i < actors.len() && (#[trigger] actors[i]).alive && is_reserver(
                actors[i].core.kind,
            ) ==> crate::motion::self_reserved(
                actors[i].core,
                regs_after(actors, s, w, tile, dt_ms, n),
            ),
    decreases n,
{
    reveal(stepped_actor);
    if n == 0 {
        assert(regs_after(actors, s, w, tile, dt_ms, 0) == s) by {
            reveal_with_fuel(regs_after, 1);
        }
    } else {
        lemma_motion_keeps_reservations(actors, s, w, tile, dt_ms, n - 1);
        let prev = regs_after(actors, s, w, tile, dt_ms, n - 1);
        let cur = regs_after(actors, s, w, tile, dt_ms, n);
        let a = actors[n - 1];
        assert(cur == if a.alive {
            spec_step(a.core, prev, w, tile, dt_ms).entries
        } else {
            prev
        }) by {
            reveal_with_fuel(regs_after, 2);
        }
        if !a.alive {
        } else {
            let e = spec_step(a.core, prev, w, tile, dt_ms);
            crate::motion::lemma_step_keeps_identity(a.core, prev, w, tile, dt_ms);
            if is_reserver(a.core.kind) {
                crate::motion::lemma_step_keeps_self_reservation(a.core, prev, w, tile, dt_ms);
            } else {
                crate::motion::lemma_step_nonreserver_entries(a.core, prev, w, tile, dt_ms);
            }
            // Every other reserver's entry survives slot n - 1's step.
            assert forall|i: int|
                0 <= i < n - 1 && (#[trigger] actors[i]).alive && is_reserver(
                    actors[i].core.kind,
                ) implies crate::motion::self_reserved(
                stepped_actor(actors, s, w, tile, dt_ms, i).core,
                cur,
            ) by {
                let mi = stepped_actor(actors, s, w, tile, dt_ms, i).core;
                crate::motion::lemma_step_keeps_identity(
                    actors[i].core,
                    regs_after(actors, s, w, tile, dt_ms, i),
                    w,
                    tile,
                    dt_ms,
                );
                assert(mi.id == actors[i].core.id);
                assert(mi.id != a.core.id);
                crate::motion::lemma_step_preserves_other_reservation(
                    a.core,
                    prev,
                    w,
                    tile,
                    dt_ms,
                    mi.footprint(),
                    mi.id,
                );
            }
            assert forall|i: int|
                n <= i < actors.len() && (#[trigger] actors[i]).alive && is_reserver(
                    actors[i].core.kind,
                ) implies crate::motion::self_reserved(actors[i].core, cur) by {
                assert(actors[i].core.id != a.core.id);
                crate::motion::lemma_step_preserves_other_reservation(
                    a.core,
                    prev,
                    w,
                    tile,
                    dt_ms,
                    actors[i].core.footprint(),
                    actors[i].core.id,
                );
            }
        }
    }
}

/// The simulation state: the immutable wall grid, the tile size the motion
/// integrates against, the arena of actors, and the reservation registry.
pub struct World {
    pub walls: WallGrid,
    pub tile: u32,
    pub actors: Vec<Actor>,
    pub registry: Registry,
}

impl World {
    pub open spec fn wf(self) -> bool {
        &&& tile_wf(self.tile)
        &&& self.walls.wf()
        &&& self.registry.wf()
        &&& ids_unique(self.actors@)
        &&& forall|i: int|
            0 <= i < self.actors@.len() ==> (#[trigger] self.actors@[i]).core.wf(self.tile)
    }

    pub open spec fn actors_view(self) -> Seq<Actor> {
        self.actors@
    }

    pub open spec fn registry_view(self) -> Seq<(GridVec, u64)> {
        self.registry@
    }

    pub open spec fn walls_view(self) -> WallGrid {
        self.walls
    }

    pub open spec fn tile_view(self) -> u32 {
        self.tile
    }

    pub fn new(walls: WallGrid, tile: u32) -> (w: World)
        requires
            walls.wf(),
            tile_wf(tile),
        ensures
            w.wf(),
            w.actors_view().len() == 0,
            w.registry_view().len() == 0,
            w.walls_view() == walls,
            w.tile_view() == tile,
    {
        World { walls, tile, actors: Vec::new(), registry: Registry::new() }
    }

    pub fn actor_count(&self) -> (n: usize)
        ensures
            n == self.actors_view().len(),
    {
        self.actors.len()
    }

    pub fn actor_at(&self, i: usize) -> (a: Actor)
        requires
            i < self.actors_view().len(),
        ensures
            a == self.actors_view()[i as int],
    {
        self.actors[i]
    }

    /// Who reserves `pos`, if anyone.
    pub fn occupant(&self, pos: GridVec) -> (r: Option<u64>)
        requires
            self.wf(),
        ensures
            r == crate::registry::owner_of(self.registry_view(), pos),
    {
        self.registry.occupant(pos)
    }

    pub fn reservation_count(&self) -> (n: usize)
        ensures
            n == self.registry_view().len(),
    {
        self.registry.len()
    }

    /// Add an actor to the arena. Refused (returning `false`, with nothing
    /// changed) when the id is already taken. A reserver claims its spawn
    /// cell at once.
    pub fn spawn(&mut self, m: Mover, collider: Collider, x: i64, y: i64) -> (ok: bool)
        requires
            old(self).wf(),
            m.wf(old(self).tile),
        ensures
            final(self).wf(),
            final(self).walls_view() == old(self).walls_view(),
            final(self).tile_view() == old(self).tile_view(),
            ok == !has_id(old(self).actors_view(), m.id),
            !ok ==> final(self).actors_view() == old(self).actors_view()
                && final(self).registry_view() == old(self).registry_view(),
            ok ==> final(self).actors_view() == old(self).actors_view().push(
                Actor { core: m, collider, x, y, alive: true },
            ),
            ok ==> final(self).registry_view() == if is_reserver(m.kind) {
                spec_claim(old(self).registry_view(), m.cell, m.id)
            } else {
                old(self).registry_view()
            },
    {
        match crate::actors::find_actor(&self.actors, m.id) {
            Some(_) => false,
            None => {
                let a = Actor { core: m, collider, x, y, alive: true };
                self.actors.push(a);
                if crate::motion::kind_reserves(m.kind) {
                    self.registry.claim(m.cell, m.id);
                    proof {
                        crate::registry::lemma_claim_effect(old(self).registry@, m.cell, m.id);
                    }
                }
                proof {
                    let s0 = old(self).actors@;
                    assert(forall|j: int| 0 <= j < s0.len() ==> self.actors@[j] == s0[j]);
                    assert(ids_unique(self.actors@));
                }
                true
            },
        }
    }

    /// Despawn the actor carrying `id`: the slot stays in the arena, dead,
    /// until the next tick's sweep, so a reservation it held keeps blocking
    /// its cell for exactly that one tick.
    pub fn despawn(&mut self, id: u64) -> (found: bool)
        requires
            old(self).wf(),
        ensures
            final(self).wf(),
            final(self).walls_view() == old(self).walls_view(),
            final(self).tile_view() == old(self).tile_view(),
            final(self).registry_view() == old(self).registry_view(),
            found == has_id(old(self).actors_view(), id),
            found ==> final(self).actors_view() == old(self).actors_view().update(
                idx_with_id(old(self).actors_view(), id),
                dead_copy(old(self).actors_view()[idx_with_id(old(self).actors_view(), id)]),
            ),
            !found ==> final(self).actors_view() == old(self).actors_view(),
    {
        match crate::actors::find_actor(&self.actors, id) {
            None => false,
            Some(i) => {
                proof {
                    lemma_first_with_id_exists(self.actors@, id);
                }
                let mut a = self.actors[i];
                a.alive = false;
                self.actors[i] = a;
                proof {
                    let s0 = old(self).actors@;
                    assert(self.actors@ =~= s0.update(i as int, dead_copy(s0[i as int])));
                    assert(ids_unique(self.actors@)) by {
                        assert(forall|j: int|
                            0 <= j < s0.len() ==> self.actors@[j].core.id == s0[j].core.id);
                    }
                }
                true
            },
        }
    }

    /// One live slot takes its motion step.
    fn step_slot(a: &mut Actor, walls: &WallGrid, reg: &mut Registry, tile: u32, dt_ms: u32)
        requires
            old(a).core.wf(tile),
            old(a).alive,
            tile_wf(tile),
            walls.wf(),
            old(reg).wf(),
            old(a).core.travel + old(a).core.speed * dt_ms <= MAX_TRAVEL,
        ensures
            final(reg).wf(),
            final(a).core.wf(tile),
            *final(a) == ({
                let e = spec_step(old(a).core, old(reg)@, *walls, tile, dt_ms);
                Actor { core: e.mover, alive: !e.despawn, ..*old(a) }
            }),
            final(reg)@ == spec_step(old(a).core, old(reg)@, *walls, tile, dt_ms).entries,
            final(a).core.id == old(a).core.id,
            old(a).core.progress_below_one(tile) && old(a).core.speed * dt_ms <= milli_per_tile(
                tile,
            ) ==> final(a).core.progress_below_one(tile),
    {
        let d = step_mover(&mut a.core, walls, reg, tile, dt_ms);
        if d {
            a.alive = false;
        }
        proof {
            crate::motion::lemma_step_keeps_identity(old(a).core, old(reg)@, *walls, tile, dt_ms);
        }
    }

    /// The motion stage: every live actor takes one step of the state
    /// machine, in slot order, against the registry as the slots before it
    /// left it. The only stage that writes motion state or reservations.
    #[verifier::rlimit(100)]
    pub fn motion_phase(&mut self, dt_ms: u32)
        requires
            old(self).wf(),
            forall|i: int|
                0 <= i < old(self).actors_view().len() ==> (#[trigger] old(
                    self,
                ).actors_view()[i]).core.travel + old(self).actors_view()[i].core.speed * dt_ms
                    <= MAX_TRAVEL,
        ensures
            final(self).wf(),
            final(self).walls_view() == old(self).walls_view(),
            final(self).tile_view() == old(self).tile_view(),
            final(self).actors_view().len() == old(self).actors_view().len(),
            forall|i: int|
                0 <= i < old(self).actors_view().len() ==> final(self).actors_view()[i]
                    == stepped_actor(
                    old(self).actors_view(),
                    old(self).registry_view(),
                    old(self).walls_view(),
                    old(self).tile_view(),
                    dt_ms,
                    i,
                ),
            final(self).registry_view() == regs_after(
                old(self).actors_view(),
                old(self).registry_view(),
                old(self).walls_view(),
                old(self).tile_view(),
                dt_ms,
                old(self).actors_view().len() as int,
            ),
            forall|i: int|
                0 <= i < old(self).actors_view().len() && (#[trigger] old(
                    self,
                ).actors_view()[i]).core.progress_below_one(old(self).tile_view()) && old(
                    self,
                ).actors_view()[i].core.speed * dt_ms <= milli_per_tile(old(self).tile_view())
                    ==> final(self).actors_view()[i].core.progress_below_one(old(self).tile_view()),
    {
        let ghost a0 = self.actors@;
        let ghost s0 = self.registry@;
        let ghost w = self.walls;
        let ghost tile0 = self.tile;
        let n: usize = self.actors.len();
        let mut i: usize = 0;
        proof {
            reveal_with_fuel(regs_after, 1);
        }
        while i < n
            invariant
                n == self.actors@.len(),
                a0.len() == n,
                0 <= i <= n,
                self.walls == w,
                self.tile == tile0,
                a0 == old(self).actors@,
                s0 == old(self).registry@,
                w == old(self).walls,
                tile0 == old(self).tile,
                tile_wf(tile0),
                w.wf(),
                self.registry.wf(),
                self.registry@ == regs_after(a0, s0, w, tile0, dt_ms, i as int),
                forall|j: int| i <= j < n ==> self.actors@[j] == a0[j],
                forall|j: int|
                    0 <= j < i ==> self.actors@[j] == stepped_actor(a0, s0, w, tile0, dt_ms, j),
                forall|j: int|
                    0 <= j < n ==> (#[trigger] self.actors@[j]).core.wf(tile0),
                forall|j: int| 0 <= j < n ==> self.actors@[j].core.id == a0[j].core.id,
                forall|j: int|
                    0 <= j < a0.len() ==> (#[trigger] a0[j]).core.travel + a0[j].core.speed * dt_ms
                        <= MAX_TRAVEL,
                forall|j: int|
                    0 <= j < i && (#[trigger] a0[j]).core.progress_below_one(tile0)
                        && a0[j].core.speed * dt_ms <= milli_per_tile(tile0)
                        ==> self.actors@[j].core.progress_below_one(tile0),
            decreases n - i,
        {
            let mut a = self.actors[i];
            proof {
                assert(a == a0[i as int]);
                assert(a0[i as int].core.travel + a0[i as int].core.speed * dt_ms
                    <= MAX_TRAVEL);
            }
            if a.alive {
                Self::step_slot(&mut a, &self.walls, &mut self.registry, self.tile, dt_ms);
                self.actors[i] = a;
            }
            proof {
                reveal(stepped_actor);
                reveal_with_fuel(regs_after, 2);
                assert(self.actors@[i as int] == stepped_actor(a0, s0, w, tile0, dt_ms, i as int));
            }
            i = i + 1;
        }
        proof {
            assert forall|p: int, q: int| 0 <= p < q < n implies self.actors@[p].core.id
                != self.actors@[q].core.id by {
                assert(self.actors@[p].core.id == a0[p].core.id);
                assert(self.actors@[q].core.id == a0[q].core.id);
            }
            assert(ids_unique(self.actors@));
        }
    }

    /// One full tick of the pipeline, in the required order: motion, the
    /// externally supplied position projection, both collision detectors
    /// against the committed reservations, consumption of the emitted events
    /// (despawns), and finally the registry sweep and the purge of despawned
    /// slots. `positions` carries the projected world position for each
    /// post-motion arena slot. Returns the impact events and the death
    /// events of this tick: the impact victims' deaths first, then the
    /// adjacency pair (controlled actor first).
    pub fn tick(&mut self, dt_ms: u32, positions: &Vec<(i64, i64)>) -> (ev: TickEvents)
        requires
            old(self).wf(),
            positions@.len() == old(self).actors_view().len(),
            forall|i: int|
                0 <= i < old(self).actors_view().len() ==> (#[trigger] old(
                    self,
                ).actors_view()[i]).core.travel + old(self).actors_view()[i].core.speed * dt_ms
                    <= MAX_TRAVEL,
        ensures
            final(self).wf(),
            final(self).walls_view() == old(self).walls_view(),
            final(self).tile_view() == old(self).tile_view(),
            ({
                let o = spec_tick(
                    old(self).actors_view(),
                    old(self).registry_view(),
                    old(self).walls_view(),
                    old(self).tile_view(),
                    dt_ms,
                    positions@,
                );
                &&& final(self).actors_view() == o.actors
                &&& final(self).registry_view() == o.entries
                &&& ev.impacts@ == o.impacts
                &&& ev.deaths@ == o.deaths
            }),
    {
        let ghost a0 = self.actors@;
        let ghost s0 = self.registry@;
        let ghost w0 = self.walls;
        let ghost tile0 = self.tile;
        // Stage 2: motion.
        self.motion_phase(dt_ms);
        proof {
            lemma_is_motion_all(self.actors@, a0, s0, w0, tile0, dt_ms);
        }
        let ghost moved = self.actors@;
        let ghost s1 = self.registry@;
        // Stage 3: the externally computed projection is written in.
        self.apply_positions(positions);
        let ghost placed = self.actors@;
        proof {
            lemma_with_positions_cores(moved, positions@);
            assert(forall|t: int|
                0 <= t < placed.len() ==> (#[trigger] placed[t]).core.wf(tile0));
            assert(forall|t: int|
                0 <= t < placed.len() ==> (#[trigger] placed[t]).core.cell.in_coord_range()
                    && placed[t].core.direction.is_step() && (match placed[t].core.bounce {
                    Some(b) => b.remaining <= b.initial,
                    None => true,
                }));
            assert(ids_unique(placed));
        }
        // Stage 4: both detectors read the committed state.
        let ims = detect_impacts(&self.actors, &self.registry);
        let adj = detect_adjacency(&self.actors, &self.registry);
        // Event consumption: deaths are read against the detection snapshot,
        // then the despawns are applied.
        let mut deaths = impact_event_deaths(&self.actors, &ims);
        apply_impact_marks(&mut self.actors, &ims);
        let ghost marked = self.actors@;
        let ghost adj_spec = spec_adjacency(placed, s1);
        proof {
            lemma_mark_impacts_cores(placed, ims@);
        }
        match adj {
            None => {
                proof {
                    assert(self.actors@ == mark_pair(marked, adj_spec));
                    assert(deaths@ =~= impact_deaths_upto(placed, ims@, ims@.len() as int)
                        + adjacency_deaths(adj_spec));
                }
            },
            Some((pi, ei)) => {
                let pa = self.actors[pi];
                deaths.push(ActorDeath { id: pa.core.id, x: pa.x, y: pa.y });
                let ea = self.actors[ei];
                deaths.push(ActorDeath { id: ea.core.id, x: ea.x, y: ea.y });
                let mut m1 = self.actors[pi];
                m1.alive = false;
                self.actors[pi] = m1;
                let mut m2 = self.actors[ei];
                m2.alive = false;
                self.actors[ei] = m2;
                proof {
                    let p = placed[pi as int];
                    let e = placed[ei as int];
                    assert(pa.core.id == p.core.id && pa.x == p.x && pa.y == p.y);
                    assert(ea.core.id == e.core.id && ea.x == e.x && ea.y == e.y);
                    assert(deaths@ =~= impact_deaths_upto(placed, ims@, ims@.len() as int)
                        + adjacency_deaths(adj_spec));
                    assert(self.actors@ =~= marked.update(pi as int, dead_copy(
                        marked[pi as int],
                    )).update(ei as int, dead_copy(marked[ei as int])));
                    lemma_adjacency_marks(
                        placed,
                        marked,
                        self.actors@,
                        p,
                        e,
                        pi as int,
                        ei as int,
                    );
                }
            },
        }
        let ghost marked2 = mark_pair(marked, adj_spec);
        // Stage 5: sweep the registry, then drop the despawned slots.
        let gone = collect_dead_ids(&self.actors);
        self.registry.sweep(&gone);
        purge_dead(&mut self.actors);
        proof {
            reveal(spec_tick);
            assert(forall|t: int|
                0 <= t < marked2.len() ==> (#[trigger] marked2[t]).core == placed[t].core);
            assert(ids_unique(marked2)) by {
                assert(forall|t: int|
                    0 <= t < marked2.len() ==> marked2[t].core.id == placed[t].core.id);
            }
            assert(forall|t: int|
                0 <= t < marked2.len() ==> (#[trigger] marked2[t]).core.wf(tile0));
            lemma_purged_wf(marked2, tile0);
        }
        TickEvents { impacts: ims, deaths }
    }

    /// The projection stage: write the externally computed world positions
    /// into the arena, one pair per slot.
    pub fn apply_positions(&mut self, pos: &Vec<(i64, i64)>)
        requires
            old(self).wf(),
            pos@.len() == old(self).actors_view().len(),
        ensures
            final(self).wf(),
            final(self).walls_view() == old(self).walls_view(),
            final(self).tile_view() == old(self).tile_view(),
            final(self).registry_view() == old(self).registry_view(),
            final(self).actors_view() == with_positions(old(self).actors_view(), pos@),
    {
        let ghost a0 = self.actors@;
        let n: usize = self.actors.len();
        let mut i: usize = 0;
        while i < n
            invariant
                n == self.actors@.len(),
                a0.len() == n,
                pos@.len() == n,
                0 <= i <= n,
                a0 == old(self).actors@,
                self.walls == old(self).walls,
                self.tile == old(self).tile,
                self.registry == old(self).registry,
                forall|j: int| i <= j < n ==> self.actors@[j] == a0[j],
                forall|j: int|
                    0 <= j < i ==> self.actors@[j] == (Actor {
                        x: pos@[j].0,
                        y: pos@[j].1,
                        ..a0[j]
                    }),
            decreases n - i,
        {
            let mut a = self.actors[i];
            let p = pos[i];
            a.x = p.0;
            a.y = p.1;
            self.actors[i] = a;
            i = i + 1;
        }
        proof {
            assert(self.actors@ =~= with_positions(a0, pos@));
            assert(ids_unique(self.actors@)) by {
                assert(forall|j: int| 0 <= j < n ==> self.actors@[j].core.id == a0[j].core.id);
            }
            assert(forall|j: int|
                0 <= j < n ==> (#[trigger] self.actors@[j]).core == a0[j].core);
        }
    }

}

/// The death events the projectile impacts cause, read against the snapshot
/// the detectors saw.
pub fn impact_event_deaths(actors: &Vec<Actor>, ims: &Vec<ProjectileImpact>) -> (out: Vec<
    ActorDeath,
>)
    ensures
        out@ == impact_deaths_upto(actors@, ims@, ims@.len() as int),
{
    let n: usize = ims.len();
    let mut out: Vec<ActorDeath> = Vec::new();
    let mut i: usize = 0;
    while i < n
        invariant
            n == ims@.len(),
            0 <= i <= n,
            out@ == impact_deaths_upto(actors@, ims@, i as int),
        decreases n - i,
    {
        let im = ims[i];
        match crate::actors::find_actor(actors, im.victim) {
            None => {},
            Some(vi) => {
                let v = actors[vi];
                let is_proj = match v.core.kind {
                    ActorKind::Projectile => true,
                    _ => false,
                };
                if v.alive && !is_proj {
                    out.push(ActorDeath { id: im.victim, x: v.x, y: v.y });
                }
            },
        }
        i = i + 1;
    }
    out
}

/// Collect the ids of the despawned slots, in slot order.
pub fn collect_dead_ids(actors: &Vec<Actor>) -> (out: Vec<u64>)
    ensures
        out@ == dead_ids_of(actors@),
{
    let n: usize = actors.len();
    let mut out: Vec<u64> = Vec::new();
    let mut i: usize = 0;
    while i < n
        invariant
            n == actors@.len(),
            0 <= i <= n,
            out@ == dead_ids_of(actors@.take(i as int)),
        decreases n - i,
    {
        proof {
            assert(actors@.take(i as int + 1).drop_last() =~= actors@.take(i as int));
            assert(actors@.take(i as int + 1).last() == actors@[i as int]);
        }
        if !actors[i].alive {
            out.push(actors[i].core.id);
        }
        i = i + 1;
    }
    proof {
        assert(actors@.take(n as int) =~= actors@);
    }
    out
}

/// Drop the despawned slots from the arena.
pub fn purge_dead(actors: &mut Vec<Actor>)
    ensures
        final(actors)@ == live_only(old(actors)@),
{
    let ghost a0 = actors@;
    let n: usize = actors.len();
    let mut kept: Vec<Actor> = Vec::new();
    let mut i: usize = 0;
    while i < n
        invariant
            n == actors@.len(),
            actors@ == a0,
            0 <= i <= n,
            kept@ == live_only(a0.take(i as int)),
        decreases n - i,
    {
        proof {
            assert(a0.take(i as int + 1).drop_last() =~= a0.take(i as int));
            assert(a0.take(i as int + 1).last() == a0[i as int]);
        }
        if actors[i].alive {
            kept.push(actors[i]);
        }
        i = i + 1;
    }
    proof {
        assert(a0.take(n as int) =~= a0);
    }
    *actors = kept;
}

/// Consume the impact events: despawn every hitting projectile, and every
/// victim that is not itself a projectile.
pub fn apply_impact_marks(actors: &mut Vec<Actor>, ims: &Vec<ProjectileImpact>)
    requires
        ids_unique(old(actors)@),
    ensures
        final(actors)@ == mark_impacts(old(actors)@, ims@),
{
    let ghost snap = actors@;
    let n: usize = ims.len();
    let mut j: usize = 0;
    while j < n
        invariant
            n == ims@.len(),
            actors@.len() == snap.len(),
            snap == old(actors)@,
            ids_unique(snap),
            0 <= j <= n,
            forall|t: int|
                0 <= t < snap.len() ==> #[trigger] actors@[t] == (if killed_by(
                    snap[t],
                    ims@.take(j as int),
                ) {
                    dead_copy(snap[t])
                } else {
                    snap[t]
                }),
        decreases n - j,
    {
        let ghost before = actors@;
        let im = ims[j];
        proof {
            assert(forall|t: int|
                0 <= t < snap.len() ==> (#[trigger] actors@[t]).core == snap[t].core);
        }
        let ghost ppi: int = if has_id(snap, im.projectile) {
            idx_with_id(snap, im.projectile)
        } else {
            -1
        };
        match crate::actors::find_actor(actors, im.projectile) {
            None => {
                proof {
                    if has_id(snap, im.projectile) {
                        let k = choose|k: int|
                            0 <= k < snap.len() && snap[k].core.id == im.projectile;
                        assert(actors@[k].core.id == im.projectile);
                        assert(false);
                    }
                }
            },
            Some(pi) => {
                let mut a = actors[pi];
                a.alive = false;
                actors[pi] = a;
                proof {
                    assert(before[pi as int].core.id == im.projectile);
                    assert(snap[pi as int].core.id == im.projectile);
                }
            },
        }
        let ghost mid = actors@;
        match crate::actors::find_actor(actors, im.victim) {
            None => {
                proof {
                    if has_id(snap, im.victim) {
                        let k = choose|k: int| 0 <= k < snap.len() && snap[k].core.id == im.victim;
                        assert(mid[k].core == snap[k].core);
                        assert(false);
                    }
                }
            },
            Some(vi) => {
                let v = actors[vi];
                let is_proj = match v.core.kind {
                    ActorKind::Projectile => true,
                    _ => false,
                };
                if !is_proj {
                    let mut a = actors[vi];
                    a.alive = false;
                    actors[vi] = a;
                }
            },
        }
        proof {
            assert(ims@.take(j as int + 1).drop_last() =~= ims@.take(j as int));
            assert(ims@.take(j as int + 1).last() == im);
            assert forall|t: int| 0 <= t < snap.len() implies #[trigger] actors@[t] == (
            if killed_by(snap[t], ims@.take(j as int + 1)) {
                dead_copy(snap[t])
            } else {
                snap[t]
            }) by {
                let pre = ims@.take(j as int);
                let cur = ims@.take(j as int + 1);
                assert(cur[j as int] == im);
                if killed_by(snap[t], cur) {
                    let w = choose|w: int| 0 <= w < cur.len() && impact_kills(snap[t], cur[w]);
                    if w < j {
                        assert(pre[w] == cur[w]);
                        assert(killed_by(snap[t], pre));
                        assert(before[t] == dead_copy(snap[t]));
                    } else {
                        assert(impact_kills(snap[t], im));
                    }
                } else {
                    assert(!killed_by(snap[t], pre)) by {
                        if killed_by(snap[t], pre) {
                            let w = choose|w: int|
                                0 <= w < pre.len() && impact_kills(snap[t], pre[w]);
                            assert(cur[w] == pre[w]);
                        }
                    }
                    assert(!impact_kills(snap[t], im));
                    assert(before[t] == snap[t]);
                    assert(snap[t].core.id != im.projectile);
                    assert(mid[t] == snap[t]);
                    assert(actors@[t] == snap[t]);
                }
            }
        }
        j = j + 1;
    }
    proof {
        assert(ims@.take(n as int) =~= ims@);
        assert(final(actors)@ =~= mark_impacts(snap, ims@));
    }
}

} // verus!
