//! End-to-end scenarios through the tick pipeline: self-fire immunity,
//! the single adjacency pair per tick, and sweep timing.

use gridcore::actors::Collider;
use gridcore::coords::GridVec;
use gridcore::motion::{ActorKind, Bounce, Mover};
use gridcore::walls::WallGrid;
use gridcore::world::World;

fn open_world(w: u32, h: u32) -> World {
    let cells = vec![false; (w * h) as usize];
    World::new(WallGrid::new(w, h, cells), 64)
}

fn v(x: i32, y: i32) -> GridVec {
    GridVec::new(x, y)
}

fn idle(id: u64, kind: ActorKind, cell: GridVec, speed: u32, intended: GridVec) -> Mover {
    Mover {
        id,
        kind,
        cell,
        direction: v(0, 0),
        travel: 0,
        legs: 0,
        speed,
        intended,
        bounce: None,
    }
}

fn small_box() -> Collider {
    Collider { width: 32, height: 32 }
}

fn zeros(n: usize) -> Vec<(i64, i64)> {
    vec![(0, 0); n]
}

#[test]
fn spawn_refuses_duplicate_ids() {
    let mut w = open_world(8, 8);
    assert!(w.spawn(idle(1, ActorKind::Controlled, v(2, 2), 100, v(0, 0)), small_box(), 0, 0));
    assert!(!w.spawn(idle(1, ActorKind::Autonomous, v(4, 4), 100, v(0, 0)), small_box(), 0, 0));
    assert_eq!(w.actor_count(), 1);
}

#[test]
fn reservers_claim_spawn_cell_projectiles_do_not() {
    let mut w = open_world(8, 8);
    w.spawn(idle(1, ActorKind::Controlled, v(2, 2), 100, v(0, 0)), small_box(), 0, 0);
    let p = Mover {
        bounce: Some(Bounce { initial: 3, remaining: 3 }),
        ..idle(9, ActorKind::Projectile, v(5, 5), 1500, v(0, 0))
    };
    w.spawn(p, small_box(), 0, 0);
    assert_eq!(w.occupant(v(2, 2)), Some(1));
    assert_eq!(w.occupant(v(5, 5)), None);
}

/// A projectile that targets the controlled actor's cell with zero bounces
/// consumed produces no impact; once it has bounced, the same geometry
/// produces exactly one.
#[test]
fn self_fire_immunity_before_first_bounce() {
    let mut w = open_world(8, 8);
    w.spawn(idle(1, ActorKind::Controlled, v(2, 2), 100, v(0, 0)), small_box(), 0, 0);
    let fresh = Mover {
        bounce: Some(Bounce { initial: 3, remaining: 3 }),
        ..idle(9, ActorKind::Projectile, v(1, 2), 1500, v(1, 0))
    };
    w.spawn(fresh, small_box(), 0, 0);
    let ev = w.tick(1, &zeros(2));
    // The projectile is in transit towards the controlled actor's cell, yet
    // with zero bounces consumed the hit is suppressed.
    assert_eq!(ev.impacts.len(), 0);
    assert_eq!(ev.deaths.len(), 0);
    assert_eq!(w.actor_count(), 2);
}

#[test]
fn bounced_projectile_hits_controlled_actor() {
    let mut w = open_world(8, 8);
    w.spawn(idle(1, ActorKind::Controlled, v(2, 2), 100, v(0, 0)), small_box(), 0, 0);
    let bounced = Mover {
        bounce: Some(Bounce { initial: 3, remaining: 2 }),
        ..idle(9, ActorKind::Projectile, v(1, 2), 1500, v(1, 0))
    };
    w.spawn(bounced, small_box(), 0, 0);
    let ev = w.tick(1, &zeros(2));
    assert_eq!(ev.impacts.len(), 1);
    assert_eq!(ev.impacts[0].projectile, 9);
    assert_eq!(ev.impacts[0].victim, 1);
    assert_eq!(ev.deaths.len(), 1);
    assert_eq!(ev.deaths[0].id, 1);
    // Both the projectile and the victim are gone after the tick.
    assert_eq!(w.actor_count(), 0);
}

#[test]
fn projectile_hits_autonomous_actor_without_bouncing() {
    let mut w = open_world(8, 8);
    w.spawn(idle(1, ActorKind::Controlled, v(6, 6), 100, v(0, 0)), small_box(), 0, 0);
    w.spawn(idle(2, ActorKind::Autonomous, v(2, 2), 100, v(0, 0)), small_box(), 0, 0);
    let fresh = Mover {
        bounce: Some(Bounce { initial: 3, remaining: 3 }),
        ..idle(9, ActorKind::Projectile, v(1, 2), 1500, v(1, 0))
    };
    w.spawn(fresh, small_box(), 0, 0);
    // Keep the controlled actor far away so only the shot matters; enemies
    // get no first-leg immunity.
    let positions = vec![(1000, 1000), (0, 0), (0, 0)];
    let ev = w.tick(1, &positions);
    assert_eq!(ev.impacts.len(), 1);
    assert_eq!(ev.impacts[0].victim, 2);
    assert_eq!(ev.deaths.len(), 1);
    assert_eq!(ev.deaths[0].id, 2);
}

/// Two hostile neighbours flank the controlled actor at once: exactly one
/// death-event pair is emitted this tick, for the first neighbour in probe
/// order (up before down).
#[test]
fn adjacency_reports_one_pair_per_tick() {
    let mut w = open_world(8, 8);
    w.spawn(idle(1, ActorKind::Controlled, v(2, 2), 100, v(0, 0)), small_box(), 0, 0);
    w.spawn(idle(2, ActorKind::Autonomous, v(2, 3), 100, v(0, 0)), small_box(), 0, 0);
    w.spawn(idle(3, ActorKind::Autonomous, v(2, 1), 100, v(0, 0)), small_box(), 0, 0);
    let ev = w.tick(0, &zeros(3));
    assert_eq!(ev.deaths.len(), 2);
    assert_eq!(ev.deaths[0].id, 1); // the controlled actor
    assert_eq!(ev.deaths[1].id, 2); // the neighbour above, probed first
    // The other neighbour survives this tick.
    assert_eq!(w.actor_count(), 1);
    assert_eq!(w.actor_at(0).core.id, 3);
}

#[test]
fn adjacency_needs_expanded_overlap() {
    let mut w = open_world(8, 8);
    w.spawn(idle(1, ActorKind::Controlled, v(2, 2), 100, v(0, 0)), small_box(), 0, 0);
    w.spawn(idle(2, ActorKind::Autonomous, v(2, 3), 100, v(0, 0)), small_box(), 0, 0);
    // Expanded boxes: 8 * |dx| < 9 * (32 + 32) means hits below 72 apart.
    let ev_far = w.tick(0, &vec![(0, 0), (72, 0)]);
    assert_eq!(ev_far.deaths.len(), 0);
    let ev_near = w.tick(0, &vec![(0, 0), (71, 0)]);
    assert_eq!(ev_near.deaths.len(), 2);
}

/// A despawned reserver's entry keeps blocking its cell for exactly one
/// tick, then the sweep frees it.
#[test]
fn dangling_reservation_blocks_for_one_tick() {
    let mut w = open_world(8, 8);
    w.spawn(idle(1, ActorKind::Autonomous, v(3, 3), 1000, v(0, 0)), small_box(), 0, 0);
    w.spawn(idle(2, ActorKind::Autonomous, v(2, 3), 1000, v(1, 0)), small_box(), 0, 0);
    assert_eq!(w.occupant(v(3, 3)), Some(1));
    w.despawn(1);
    // Tick 1: the ghost entry still blocks the start; the sweep then purges
    // it after all motion ran.
    w.tick(0, &zeros(2));
    assert_eq!(w.actor_count(), 1);
    let b = w.actor_at(0);
    assert_eq!(b.core.id, 2);
    assert_eq!((b.core.direction.x, b.core.direction.y), (0, 0));
    assert_eq!(w.occupant(v(3, 3)), None);
    // Tick 2: the cell is free, movement starts and claims it.
    w.tick(0, &zeros(1));
    let b2 = w.actor_at(0);
    assert_eq!((b2.core.direction.x, b2.core.direction.y), (1, 0));
    assert_eq!(w.occupant(v(3, 3)), Some(2));
}

#[test]
fn stale_victim_is_no_collision() {
    // The reserved target cell's occupant despawned this very tick (before
    // the sweep): the detector treats it as no collision.
    let mut w = open_world(8, 8);
    w.spawn(idle(2, ActorKind::Autonomous, v(2, 2), 100, v(0, 0)), small_box(), 0, 0);
    let fresh = Mover {
        bounce: Some(Bounce { initial: 3, remaining: 3 }),
        ..idle(9, ActorKind::Projectile, v(1, 2), 1500, v(1, 0))
    };
    w.spawn(fresh, small_box(), 0, 0);
    w.despawn(2);
    let ev = w.tick(1, &zeros(2));
    assert_eq!(ev.impacts.len(), 0);
    assert_eq!(ev.deaths.len(), 0);
}
