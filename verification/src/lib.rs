//! Grid-based actor simulation core.
//!
//! Actors (a controlled actor, autonomous wanderers, and projectiles) move on
//! a discrete grid with smooth sub-tile interpolation. The library guarantees
//! single ownership of grid cells through a reservation registry, runs a
//! per-actor motion state machine with wall gating and bounce reflection, and
//! detects impacts through the registry instead of pairwise scans.
//!
//! All sub-tile motion is tracked in exact integer arithmetic: an in-transit
//! actor accumulates travelled distance in milli-unit increments and the
//! fraction of a step completed is compared against whole steps by squaring,
//! so that diagonal steps (length sqrt 2) are timed exactly.

pub mod actors;
pub mod collide;
pub mod coords;
pub mod motion;
pub mod reflect;
pub mod registry;
pub mod steer;
pub mod walls;
pub mod world;
