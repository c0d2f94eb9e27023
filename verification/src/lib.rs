//! A first-person raycasting maze game core: a grid map with pickups and an
//! exit, a camera with a rotation transform, collision-checked movement, a
//! DDA raycaster producing a z-buffer, billboard sprite projection tested
//! against that z-buffer, and a minimap projection.

pub mod fixed;
pub mod grid;
pub mod camera;
pub mod movement;
pub mod game;
pub mod raycast;
pub mod scene;
pub mod sprite;
pub mod minimap;
pub mod levels;
pub mod render;

use vstd::prelude::*;

verus! {

/// Fixed-point scale: one grid unit is `FP` units.
pub const FP: i64 = 1_000_000;

} // verus!
