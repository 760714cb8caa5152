//! Unit scenarios for the wall grid, the registry, reflection, and the
//! motion state machine.

use gridcore::coords::GridVec;
use gridcore::motion::{step_mover, ActorKind, Bounce, Mover};
use gridcore::reflect::reflect;
use gridcore::registry::Registry;
use gridcore::steer::{left_turn_choice, right_turn_choice};
use gridcore::walls::WallGrid;

fn open_grid(w: u32, h: u32) -> WallGrid {
    let cells = vec![false; (w * h) as usize];
    WallGrid::new(w, h, cells)
}

fn v(x: i32, y: i32) -> GridVec {
    GridVec::new(x, y)
}

fn idle_mover(id: u64, kind: ActorKind, cell: GridVec, speed: u32, intended: GridVec) -> Mover {
    Mover {
        id,
        kind,
        cell,
        direction: v(0, 0),
        travel: 0,
        legs: 0,
        speed,
        intended,
        bounce: None,
    }
}

#[test]
fn wall_lookup_out_of_bounds_is_wall() {
    let g = open_grid(4, 4);
    assert!(g.is_wall(v(-1, 0)));
    assert!(g.is_wall(v(0, -1)));
    assert!(g.is_wall(v(4, 0)));
    assert!(g.is_wall(v(0, 4)));
    assert!(!g.is_wall(v(0, 0)));
    assert!(!g.is_wall(v(3, 3)));
}

#[test]
fn wall_lookup_flips_y() {
    // Row-major with the top row first: index 0 is (0, height - 1).
    let mut cells = vec![false; 4];
    cells[0] = true;
    let g = WallGrid::new(2, 2, cells);
    assert!(g.is_wall(v(0, 1)));
    assert!(!g.is_wall(v(0, 0)));
    assert!(!g.is_wall(v(1, 1)));
}

#[test]
fn wall_lookup_truncated_data_is_wall() {
    // Fewer cells than width * height: the missing tail reads as wall.
    let cells = vec![false; 2];
    let g = WallGrid::new(2, 2, cells);
    assert!(!g.is_wall(v(0, 1)));
    assert!(!g.is_wall(v(1, 1)));
    assert!(g.is_wall(v(0, 0)));
    assert!(g.is_wall(v(1, 0)));
}

#[test]
fn registry_claim_and_guarded_release() {
    let mut r = Registry::new();
    r.claim(v(2, 2), 7);
    assert_eq!(r.occupant(v(2, 2)), Some(7));
    assert_eq!(r.occupant(v(2, 3)), None);
    // A stale release from a previous occupant is ignored.
    r.release(v(2, 2), 9);
    assert_eq!(r.occupant(v(2, 2)), Some(7));
    // The owner's release clears the entry.
    r.release(v(2, 2), 7);
    assert_eq!(r.occupant(v(2, 2)), None);
}

#[test]
fn registry_single_owner_per_cell() {
    let mut r = Registry::new();
    r.claim(v(1, 1), 1);
    r.claim(v(1, 1), 2);
    assert_eq!(r.occupant(v(1, 1)), Some(2));
    assert_eq!(r.len(), 1);
}

#[test]
fn registry_sweep_removes_listed_owners() {
    let mut r = Registry::new();
    r.claim(v(0, 0), 1);
    r.claim(v(1, 0), 2);
    r.claim(v(2, 0), 3);
    r.sweep(&vec![1, 3]);
    assert_eq!(r.occupant(v(0, 0)), None);
    assert_eq!(r.occupant(v(1, 0)), Some(2));
    assert_eq!(r.occupant(v(2, 0)), None);
    assert_eq!(r.len(), 1);
}

#[test]
fn reflection_prefers_horizontal() {
    // Both probe cells open: the horizontal check wins, y is inverted.
    let g = open_grid(5, 5);
    let r = reflect(v(1, 1), v(2, 2), &g);
    assert_eq!((r.x, r.y), (1, -1));
}

#[test]
fn reflection_vertical_when_horizontal_blocked() {
    // Wall one step to the right of the impact point, open above.
    let mut cells = vec![false; 25];
    // (3, 2) is a wall: top-first row index is (5 - 1 - 2) * 5 + 3.
    cells[(5 - 1 - 2) * 5 + 3] = true;
    let g = WallGrid::new(5, 5, cells);
    let r = reflect(v(1, 1), v(2, 2), &g);
    assert_eq!((r.x, r.y), (-1, 1));
}

#[test]
fn corner_impact_reverses_direction() {
    // Both probe cells are walls: the direction is fully reversed.
    let mut cells = vec![false; 25];
    cells[(5 - 1 - 2) * 5 + 3] = true; // (3, 2)
    cells[(5 - 1 - 3) * 5 + 2] = true; // (2, 3)
    let g = WallGrid::new(5, 5, cells);
    let r = reflect(v(1, 1), v(2, 2), &g);
    assert_eq!((r.x, r.y), (-1, -1));
    // The same holds for every direction at a full corner.
    let mut cells2 = vec![true; 25];
    cells2[(5 - 1 - 2) * 5 + 2] = false; // only (2, 2) is open
    let g2 = WallGrid::new(5, 5, cells2);
    for (dx, dy) in [(1, 0), (-1, 0), (0, 1), (0, -1), (1, 1), (-1, 1), (1, -1), (-1, -1)] {
        let r2 = reflect(v(dx, dy), v(2, 2), &g2);
        assert_eq!((r2.x, r2.y), (-dx, -dy));
    }
}

/// With speed 100, tile 64 and a time step of 0.64 s, a diagonal step gains
/// exactly 100 * 640 = 64000 milli-units of travel per tick, while one
/// diagonal leg is 64000 * sqrt(2) long: the first tick leaves the actor
/// short of the boundary (progress is exactly 1 / sqrt 2) and the second
/// tick crosses it. The same increment covers an orthogonal leg in a single
/// tick.
#[test]
fn diagonal_timing_is_exact() {
    let g = open_grid(16, 16);
    let mut reg = Registry::new();
    let tile: u32 = 64;
    let dt: u32 = 640; // milliseconds

    let mut m = idle_mover(1, ActorKind::Autonomous, v(4, 4), 100, v(1, 1));
    // Starting tick: the buffered diagonal intent is adopted.
    step_mover(&mut m, &g, &mut reg, tile, dt);
    assert_eq!((m.direction.x, m.direction.y), (1, 1));
    assert_eq!(m.travel, 0);
    // One integration tick: travel is exactly speed * dt, and
    // 64000^2 < (64000^2) * 2 means the diagonal leg is not finished.
    step_mover(&mut m, &g, &mut reg, tile, dt);
    assert_eq!(m.travel, 64_000);
    assert_eq!((m.cell.x, m.cell.y), (4, 4));
    // Second integration tick: 128000^2 >= (64000^2) * 2, the leg commits.
    step_mover(&mut m, &g, &mut reg, tile, dt);
    assert_eq!(m.travel, 128_000);
    assert_eq!((m.cell.x, m.cell.y), (5, 5));

    // An orthogonal step with the same numbers commits on the first
    // integration tick: the sqrt(2) factor is what delayed the diagonal.
    let mut mo = idle_mover(2, ActorKind::Autonomous, v(8, 8), 100, v(1, 0));
    step_mover(&mut mo, &g, &mut reg, tile, dt);
    step_mover(&mut mo, &g, &mut reg, tile, dt);
    assert_eq!((mo.cell.x, mo.cell.y), (9, 8));
}

/// After every resolved tick the fractional progress of an in-transit actor
/// stays in [0, 1): travel squared lies between the squared lengths of
/// `legs` and `legs + 1` whole legs.
#[test]
fn progress_stays_below_one_across_ticks() {
    let g = open_grid(32, 32);
    let mut reg = Registry::new();
    let tile: u32 = 64;
    let dt: u32 = 500; // increment 50000 < one leg (64000)

    let mut m = idle_mover(3, ActorKind::Autonomous, v(4, 4), 100, v(1, 1));
    for _ in 0..20 {
        step_mover(&mut m, &g, &mut reg, tile, dt);
        if m.direction.x != 0 || m.direction.y != 0 {
            let n2: u128 = 2;
            let k: u128 = 64_000;
            let t = m.travel as u128;
            let lo = (m.legs as u128) * k;
            let hi = (m.legs as u128 + 1) * k;
            assert!(t * t >= lo * lo * n2);
            assert!(t * t < hi * hi * n2);
        }
    }
}

#[test]
fn projectile_bounces_then_dies_on_next_wall() {
    // A corridor three cells wide: (0,2), (1,2), (2,2) are open, everything
    // around is wall; the projectile flies right, bounces off the east wall,
    // then hits the west wall with no budget left and is destroyed.
    let mut cells = vec![true; 25];
    let open = [(0usize, 2usize), (1, 2), (2, 2)];
    for (x, y) in open {
        cells[(5 - 1 - y) * 5 + x] = false;
    }
    let g = WallGrid::new(5, 5, cells);
    let mut reg = Registry::new();
    let tile: u32 = 64;
    let dt: u32 = 64; // speed 1000: exactly one orthogonal leg per tick

    let mut m = Mover {
        id: 9,
        kind: ActorKind::Projectile,
        cell: v(0, 2),
        direction: v(0, 0),
        travel: 0,
        legs: 0,
        speed: 1000,
        intended: v(1, 0),
        bounce: Some(Bounce { initial: 1, remaining: 1 }),
    };
    // Start moving right.
    let d0 = step_mover(&mut m, &g, &mut reg, tile, dt);
    assert!(!d0);
    assert_eq!((m.direction.x, m.direction.y), (1, 0));
    // Arrive at (1,2); the cell ahead (2,2) is open, carry straight on.
    let d1 = step_mover(&mut m, &g, &mut reg, tile, dt);
    assert!(!d1);
    assert_eq!((m.cell.x, m.cell.y), (1, 2));
    // Arrive at (2,2); (3,2) is a wall: bounce, direction reverses.
    let d2 = step_mover(&mut m, &g, &mut reg, tile, dt);
    assert!(!d2);
    assert_eq!((m.cell.x, m.cell.y), (2, 2));
    assert_eq!((m.direction.x, m.direction.y), (-1, 0));
    assert_eq!(m.bounce.unwrap().remaining, 0);
    // Fly back through (1,2)...
    let d3 = step_mover(&mut m, &g, &mut reg, tile, dt);
    assert!(!d3);
    assert_eq!((m.cell.x, m.cell.y), (1, 2));
    // ...and stop dead at (0,2): the wall behind it, no budget, destroyed.
    let d4 = step_mover(&mut m, &g, &mut reg, tile, dt);
    assert!(d4);
    assert_eq!((m.cell.x, m.cell.y), (0, 2));
    assert_eq!((m.direction.x, m.direction.y), (0, 0));
    assert_eq!(m.travel, 0);
}

#[test]
fn blocked_start_waits_for_reservation() {
    let g = open_grid(8, 8);
    let mut reg = Registry::new();
    reg.claim(v(3, 3), 42);

    // A reserver cannot start into a cell reserved by someone else.
    let mut m = idle_mover(1, ActorKind::Autonomous, v(2, 3), 1000, v(1, 0));
    step_mover(&mut m, &g, &mut reg, 64, 64);
    assert_eq!((m.direction.x, m.direction.y), (0, 0));

    // Its own reservation does not block it.
    let mut own = idle_mover(42, ActorKind::Autonomous, v(2, 3), 1000, v(1, 0));
    step_mover(&mut own, &g, &mut reg, 64, 64);
    assert_eq!((own.direction.x, own.direction.y), (1, 0));

    // A projectile ignores reservations entirely when starting.
    let mut p = Mover {
        bounce: Some(Bounce { initial: 3, remaining: 3 }),
        ..idle_mover(7, ActorKind::Projectile, v(2, 3), 1000, v(1, 0))
    };
    step_mover(&mut p, &g, &mut reg, 64, 64);
    assert_eq!((p.direction.x, p.direction.y), (1, 0));
}

#[test]
fn start_claims_destination_for_whole_transit() {
    let g = open_grid(8, 8);
    let mut reg = Registry::new();
    let mut m = idle_mover(5, ActorKind::Controlled, v(1, 1), 100, v(0, 1));
    reg.claim(v(1, 1), 5); // the spawn cell is held
    step_mover(&mut m, &g, &mut reg, 64, 64);
    // In transit: both the departed cell and the destination are held.
    assert_eq!((m.direction.x, m.direction.y), (0, 1));
    assert_eq!(reg.occupant(v(1, 1)), Some(5));
    assert_eq!(reg.occupant(v(1, 2)), Some(5));
    // On arrival the departed cell is released.
    let mut ticks = 0;
    while m.cell.y == 1 && ticks < 2000 {
        step_mover(&mut m, &g, &mut reg, 64, 64);
        ticks += 1;
    }
    assert_eq!((m.cell.x, m.cell.y), (1, 2));
    assert_eq!(reg.occupant(v(1, 1)), None);
    assert_eq!(reg.occupant(v(1, 2)), Some(5));
}

#[test]
fn wall_stop_resets_motion_state() {
    // A non-bouncing walker runs into the boundary and stops.
    let g = open_grid(3, 1);
    let mut reg = Registry::new();
    let mut m = idle_mover(1, ActorKind::Autonomous, v(1, 0), 1000, v(1, 0));
    step_mover(&mut m, &g, &mut reg, 64, 64); // start towards (2,0)
    let d = step_mover(&mut m, &g, &mut reg, 64, 64); // arrive; (3,0) is a wall
    assert!(!d); // not a projectile: stopped, not destroyed
    assert_eq!((m.cell.x, m.cell.y), (2, 0));
    assert_eq!((m.direction.x, m.direction.y), (0, 0));
    assert_eq!((m.intended.x, m.intended.y), (0, 0));
    assert_eq!(m.travel, 0);
}

#[test]
fn turn_at_boundary_is_immediate() {
    // The intent changes mid-transit: at the boundary the new direction is
    // adopted with no idle tick, and progress restarts from zero.
    let g = open_grid(8, 8);
    let mut reg = Registry::new();
    let mut m = idle_mover(1, ActorKind::Autonomous, v(2, 2), 1000, v(1, 0));
    step_mover(&mut m, &g, &mut reg, 64, 64); // start towards (3,2)
    m.intended = v(0, 1); // buffered turn
    step_mover(&mut m, &g, &mut reg, 64, 64); // arrive and turn at once
    assert_eq!((m.cell.x, m.cell.y), (3, 2));
    assert_eq!((m.direction.x, m.direction.y), (0, 1));
    assert_eq!(m.travel, 0);
}

#[test]
fn turners_prefer_their_own_side() {
    let g = open_grid(8, 8);
    let reg = Registry::new();
    // Heading right: a left-turner dips, a right-turner rises.
    let l = left_turn_choice(v(1, 0), v(3, 3), 1, &reg, &g);
    assert_eq!((l.x, l.y), (0, -1));
    let r = right_turn_choice(v(1, 0), v(3, 3), 1, &reg, &g);
    assert_eq!((r.x, r.y), (0, 1));
}

#[test]
fn flanked_turner_reverses() {
    let g = open_grid(8, 8);
    let mut reg = Registry::new();
    reg.claim(v(3, 2), 7);
    reg.claim(v(3, 4), 8);
    let b = left_turn_choice(v(1, 0), v(3, 3), 1, &reg, &g);
    assert_eq!((b.x, b.y), (-1, 0));
    let b2 = right_turn_choice(v(1, 0), v(3, 3), 1, &reg, &g);
    assert_eq!((b2.x, b2.y), (-1, 0));
    // The turner's own reservation does not count as blocking.
    let own = left_turn_choice(v(1, 0), v(3, 3), 7, &reg, &g);
    assert_eq!((own.x, own.y), (0, -1));
}
