//! The minimap projector: a fixed-scale top-down view of the grid. Walls,
//! pickups, the locked exit and open floor each map to one color class, and
//! the player is overlaid as a disc plus a short heading segment, both in
//! scaled pixel coordinates.

use vstd::prelude::*;

verus! {

use crate::FP;
use crate::fixed::{fdiv, mul_div_floor, lemma_div_shrinks};
use crate::camera::{Camera, NORM_SQ_LIMIT, VEC_NORM_LIMIT, lemma_norm_box};
use crate::grid::{GridMap, spec_pickup, CELL_WALL, CELL_EXIT};

/// Pixels per map cell on the minimap.
pub const MINIMAP_SCALE: i64 = 6;

/// The color class of one minimap cell.
#[derive(Clone, Copy, PartialEq, Eq, Structural, Debug)]
pub enum MiniColor {
    Wall,
    LockedExit,
    Pickup,
    Floor,
}

/// The minimap color of a cell code: walls and the locked exit stand out,
/// the cleared exit melts into the floor.
pub open spec fn spec_mini_color(cell: u8, pickups: u32) -> MiniColor {
    if cell == CELL_WALL {
        MiniColor::Wall
    } else if cell == CELL_EXIT {
        if pickups > 0 {
            MiniColor::LockedExit
        } else {
            MiniColor::Floor
        }
    } else if spec_pickup(cell) {
        MiniColor::Pickup
    } else {
        MiniColor::Floor
    }
}

/// The minimap color of one cell code.
pub fn mini_color(cell: u8, pickups: u32) -> (c: MiniColor)
    ensures
        c == spec_mini_color(cell, pickups),
{
    if cell == CELL_WALL {
        MiniColor::Wall
    } else if cell == CELL_EXIT {
        if pickups > 0 {
            MiniColor::LockedExit
        } else {
            MiniColor::Floor
        }
    } else if cell == crate::grid::CELL_PICKUP_A || cell == crate::grid::CELL_PICKUP_B {
        MiniColor::Pickup
    } else {
        MiniColor::Floor
    }
}

/// The color of every map cell, row-major, exactly `spec_mini_color` of each
/// cell code.
pub fn minimap_colors(map: &GridMap, pickups: u32) -> (r: Vec<MiniColor>)
    requires
        map.wf(),
    ensures
        r@.len() == map.cells@.len(),
        forall|i: int|
            0 <= i < r@.len() ==> r@[i] == spec_mini_color(map.cells@[i], pickups),
{
    let mut out: Vec<MiniColor> = Vec::new();
    let mut i: usize = 0;
    while i < map.cells.len()
        invariant
            map.wf(),
            0 <= i <= map.cells@.len(),
            out@.len() == i,
            forall|j: int| 0 <= j < i ==> out@[j] == spec_mini_color(map.cells@[j], pickups),
        decreases map.cells@.len() - i,
    {
        let c = mini_color(map.cells[i], pickups);
        out.push(c);
        i = i + 1;
    }
    out
}

/// The player marker on the minimap: the disc center at the scaled camera
/// position, and the end of the heading segment 1.2 cell-widths further
/// along the direction vector.
pub fn minimap_player(cam: &Camera) -> (r: (i64, i64, i64, i64))
    requires
        cam.wf(),
    ensures
        r.0 == (cam.pos.x * MINIMAP_SCALE) / (FP as int),
        r.1 == (cam.pos.y * MINIMAP_SCALE) / (FP as int),
        r.2 == r.0 + (cam.dir.x * (MINIMAP_SCALE * 12)) / (10 * FP as int),
        r.3 == r.1 + (cam.dir.y * (MINIMAP_SCALE * 12)) / (10 * FP as int),
{
    proof {
        assert(NORM_SQ_LIMIT == VEC_NORM_LIMIT * VEC_NORM_LIMIT);
        lemma_norm_box(cam.dir, VEC_NORM_LIMIT as int);
        assert(0 <= cam.pos.x * MINIMAP_SCALE <= 384_000_000 && 0 <= cam.pos.y * MINIMAP_SCALE
            <= 384_000_000) by (nonlinear_arith)
            requires
                0 <= cam.pos.x <= 64_000_000,
                0 <= cam.pos.y <= 64_000_000,
                MINIMAP_SCALE == 6,
        ;
        lemma_div_shrinks(cam.pos.x * MINIMAP_SCALE, FP as int);
        lemma_div_shrinks(cam.pos.y * MINIMAP_SCALE, FP as int);
        assert(-216_000_000 <= cam.dir.x * 72 <= 216_000_000 && -216_000_000 <= cam.dir.y * 72
            <= 216_000_000) by (nonlinear_arith)
            requires
                -3_000_000 <= cam.dir.x <= 3_000_000,
                -3_000_000 <= cam.dir.y <= 3_000_000,
        ;
        lemma_div_shrinks(cam.dir.x * 72, 10_000_000);
        lemma_div_shrinks(cam.dir.y * 72, 10_000_000);
    }
    let px: i64 = mul_div_floor(cam.pos.x, MINIMAP_SCALE, FP);
    let py: i64 = mul_div_floor(cam.pos.y, MINIMAP_SCALE, FP);
    let lx: i64 = px + mul_div_floor(cam.dir.x, MINIMAP_SCALE * 12, 10 * FP);
    let ly: i64 = py + mul_div_floor(cam.dir.y, MINIMAP_SCALE * 12, 10 * FP);
    (px, py, lx, ly)
}

} // verus!
