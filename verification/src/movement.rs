//! The collision resolver: a candidate move is the current position plus a
//! delta, taken as one combined step (never split per axis, so corners cannot
//! be cut diagonally). The move commits only when the candidate cell lies
//! inside the map and is neither a wall nor the exit while pickups remain.

use vstd::prelude::*;
use vstd::arithmetic::div_mod::lemma_fundamental_div_mod;

verus! {

use crate::FP;
use crate::fixed::{Vec2Fx, fdiv, mul_div_floor, norm_sq, lemma_div_shrinks};
use crate::camera::{Camera, NORM_SQ_LIMIT, VEC_NORM_LIMIT, lemma_norm_box};
use crate::grid::{GridMap, spec_blocking, is_blocking};

/// Largest movement delta component accepted by `try_move` (eight grid units,
/// far beyond one frame of walking).
pub const MAX_DELTA: i64 = 8_000_000;

/// The column or row of the grid cell containing fixed-point coordinate `v`.
pub open spec fn spec_cell_of(v: int) -> int {
    v / (FP as int)
}

/// The component of a vector scaled by a fixed-point factor.
pub open spec fn spec_scaled(a: int, step: int) -> int {
    (a * step) / (FP as int)
}

/// The camera position after a move attempt: the candidate position when its
/// cell is inside the map and not blocked, the old position otherwise.
pub open spec fn spec_moved_pos(map: GridMap, pos: Vec2Fx, delta: Vec2Fx, pickups: u32) -> Vec2Fx {
    let cx = spec_cell_of(pos.x + delta.x);
    let cy = spec_cell_of(pos.y + delta.y);
    if map.in_bounds(cx, cy) && !spec_blocking(map.spec_cell(cx, cy), pickups) {
        Vec2Fx { x: (pos.x + delta.x) as i64, y: (pos.y + delta.y) as i64 }
    } else {
        pos
    }
}

/// Attempts to move the camera by `delta` as one combined step. Commits the
/// candidate position exactly when its cell is inside the map and is neither
/// a wall nor the still-locked exit; otherwise the position is unchanged, so
/// the camera is never placed inside a wall cell, nor inside the exit cell
/// while pickups remain.
pub fn try_move(cam: &mut Camera, delta: Vec2Fx, map: &GridMap, pickups: u32)
    requires
        map.wf(),
        old(cam).wf(),
        -MAX_DELTA <= delta.x <= MAX_DELTA,
        -MAX_DELTA <= delta.y <= MAX_DELTA,
    ensures
        final(cam).dir == old(cam).dir,
        final(cam).plane == old(cam).plane,
        final(cam).pos == spec_moved_pos(*map, old(cam).pos, delta, pickups),
        final(cam).wf(),
        final(cam).pos != old(cam).pos ==> {
            let cx = spec_cell_of(final(cam).pos.x as int);
            let cy = spec_cell_of(final(cam).pos.y as int);
            map.in_bounds(cx, cy) && !spec_blocking(map.spec_cell(cx, cy), pickups)
        },
        (0 <= old(cam).pos.x < map.width * FP && 0 <= old(cam).pos.y < map.height * FP) ==> (0
            <= final(cam).pos.x < map.width * FP && 0 <= final(cam).pos.y < map.height * FP),
{
    let nx: i64 = cam.pos.x + delta.x;
    let ny: i64 = cam.pos.y + delta.y;
    let cx: i64 = fdiv(nx, FP);
    let cy: i64 = fdiv(ny, FP);
    proof {
        lemma_fundamental_div_mod(nx as int, FP as int);
        lemma_fundamental_div_mod(ny as int, FP as int);
    }
    if cx >= 0 && cx < map.width as i64 && cy >= 0 && cy < map.height as i64 {
        let cell = map.cell_at(cx as usize, cy as usize).unwrap();
        if !is_blocking(cell, pickups) {
            proof {
                // The committed coordinate stays within the map rectangle:
                // `nx` lies in the cell `cx`, which is inside the map.
                assert(nx >= 0 && nx < map.width * FP && ny >= 0 && ny < map.height * FP) by {
                    assert(nx as int == FP * cx + nx as int % (FP as int));
                    assert(ny as int == FP * cy + ny as int % (FP as int));
                }
            }
            cam.pos = Vec2Fx { x: nx, y: ny };
        }
    }
}

/// The movement delta for one key: the given basis vector scaled by the
/// frame's fixed-point step length.
pub fn move_delta(v: Vec2Fx, step: i64) -> (r: Vec2Fx)
    requires
        norm_sq(v) <= NORM_SQ_LIMIT,
        0 <= step <= 2 * FP,
    ensures
        r.x == spec_scaled(v.x as int, step as int),
        r.y == spec_scaled(v.y as int, step as int),
        -MAX_DELTA <= r.x <= MAX_DELTA,
        -MAX_DELTA <= r.y <= MAX_DELTA,
{
    proof {
        assert(NORM_SQ_LIMIT == VEC_NORM_LIMIT * VEC_NORM_LIMIT);
        lemma_norm_box(v, VEC_NORM_LIMIT as int);
        assert(-6_000_000_000_000 <= v.x * step <= 6_000_000_000_000 && -6_000_000_000_000 <= v.y
            * step <= 6_000_000_000_000) by (nonlinear_arith)
            requires
                -3_000_000 <= v.x <= 3_000_000,
                -3_000_000 <= v.y <= 3_000_000,
                0 <= step <= 2_000_000,
        ;
        lemma_div_shrinks(v.x * step, FP as int);
        lemma_div_shrinks(v.y * step, FP as int);
    }
    let rx = mul_div_floor(v.x, step, FP);
    let ry = mul_div_floor(v.y, step, FP);
    Vec2Fx { x: rx, y: ry }
}

/// The negation of a norm-bounded vector.
pub fn vec_neg(v: Vec2Fx) -> (r: Vec2Fx)
    requires
        norm_sq(v) <= NORM_SQ_LIMIT,
    ensures
        r.x == -v.x,
        r.y == -v.y,
        norm_sq(r) == norm_sq(v),
{
    proof {
        assert(NORM_SQ_LIMIT == VEC_NORM_LIMIT * VEC_NORM_LIMIT);
        lemma_norm_box(v, VEC_NORM_LIMIT as int);
        assert((-v.x) * (-v.x) == v.x * v.x && (-v.y) * (-v.y) == v.y * v.y) by (nonlinear_arith);
    }
    Vec2Fx { x: -v.x, y: -v.y }
}

/// The strafe basis: the direction vector turned a quarter turn, so that
/// moving along it steps sideways.
pub fn right_vector(dir: Vec2Fx) -> (r: Vec2Fx)
    requires
        norm_sq(dir) <= NORM_SQ_LIMIT,
    ensures
        r.x == -dir.y,
        r.y == dir.x,
        norm_sq(r) == norm_sq(dir),
{
    proof {
        assert(NORM_SQ_LIMIT == VEC_NORM_LIMIT * VEC_NORM_LIMIT);
        lemma_norm_box(dir, VEC_NORM_LIMIT as int);
        assert((-dir.y) * (-dir.y) == dir.y * dir.y) by (nonlinear_arith);
    }
    Vec2Fx { x: -dir.y, y: dir.x }
}

} // verus!
