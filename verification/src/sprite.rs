//! The sprite projector: every pickup cell, and the exit once unlocked, is a
//! billboard at its cell center. The camera-relative position is transformed
//! through the inverse camera basis into a depth and a horizontal offset; a
//! sprite behind the camera, off screen, or occluded by a nearer wall in the
//! z-buffer is discarded, and every sprite that survives all of those tests
//! is drawn. A locked exit is never drawn as a sprite.

use vstd::prelude::*;

verus! {

use crate::FP;
use crate::fixed::{Vec2Fx, DIST_INF, div_floor, mul_div_checked, mul_div_floor, lemma_div_shrinks};
use crate::camera::{Camera, NORM_SQ_LIMIT, VEC_NORM_LIMIT, lemma_norm_box};
use crate::grid::{GridMap, spec_pickup, CELL_EXIT, CELL_PICKUP_A, CELL_PICKUP_B};
use crate::scene::MAX_SCREEN;

/// Half of one grid unit in fixed-point units: the offset of a cell center.
pub const HALF_FP: i64 = 500_000;

/// The determinant of the camera basis matrix (scaled by `FP * FP`).
pub open spec fn spec_det(cam: Camera) -> int {
    cam.plane.x * cam.dir.y - cam.dir.x * cam.plane.y
}

/// The camera-relative x of the center of the cell with half-unit column
/// `hx`.
pub open spec fn spec_rel(h: int, p: int) -> int {
    h * HALF_FP - p
}

/// The transformed horizontal offset of a sprite (camera-space x).
pub open spec fn spec_transform_x(cam: Camera, hx: int, hy: int) -> int {
    div_floor(
        (cam.dir.y * spec_rel(hx, cam.pos.x as int) - cam.dir.x * spec_rel(hy, cam.pos.y as int))
            * FP,
        spec_det(cam),
    )
}

/// The transformed depth of a sprite (camera-space forward distance).
pub open spec fn spec_transform_y(cam: Camera, hx: int, hy: int) -> int {
    div_floor(
        (cam.plane.x * spec_rel(hy, cam.pos.y as int) - cam.plane.y * spec_rel(
            hx,
            cam.pos.x as int,
        )) * FP,
        spec_det(cam),
    )
}

/// The screen column a transformed sprite center projects to:
/// `sw/2 * (1 + tx/ty)`, carried out in integers.
pub open spec fn spec_screen_column(sw: int, tx: int, ty: int) -> int {
    div_floor(sw * (ty + tx), 2 * ty)
}

/// One drawn sprite: its source cell and kind, its camera-space depth, the
/// screen column its center projects to, and its draw rectangle.
#[derive(Clone, Copy, Debug)]
pub struct SpriteView {
    pub cell_x: usize,
    pub cell_y: usize,
    pub kind: u8,
    pub depth: i64,
    pub column: usize,
    pub draw_x: i64,
    pub dest_y: i64,
    pub size: i64,
}

/// The on-screen size of a sprite at a given depth: the projected cell
/// height scaled by the kind's factor (pickups smaller, the exit larger).
pub open spec fn spec_sprite_size(sh: int, depth: int, kind: u8) -> int {
    let h0 = div_floor(sh * FP, depth);
    let scale: int = if kind == CELL_EXIT {
        85
    } else {
        45
    };
    div_floor(h0 * scale, 100)
}

/// The vertical bob offset: the kind's amplitude share of the sprite size,
/// scaled by a sine sample supplied by the caller.
pub open spec fn spec_bob(sin_fp: int, size: int, kind: u8) -> int {
    let amp: int = if kind == CELL_EXIT {
        8
    } else {
        6
    };
    div_floor(sin_fp * div_floor(size * amp, 100), FP as int)
}

/// Exactly when cell `(x, y)` produces a sprite this frame: it holds a
/// pickup or the unlocked exit, the camera basis is invertible, the
/// transformed depth is positive and in range, the horizontal offset is in
/// range, and the center column lies on screen with the wall there strictly
/// farther than the sprite.
pub open spec fn spec_sprite_shown(
    map: GridMap,
    cam: Camera,
    pickups: u32,
    zbuf: Seq<i64>,
    x: int,
    y: int,
) -> bool {
    let cell = map.spec_cell(x, y);
    let ty = spec_transform_y(cam, 2 * x + 1, 2 * y + 1);
    let tx = spec_transform_x(cam, 2 * x + 1, 2 * y + 1);
    let col = spec_screen_column(zbuf.len() as int, tx, ty);
    &&& map.in_bounds(x, y)
    &&& (spec_pickup(cell) || (cell == CELL_EXIT && pickups == 0))
    &&& spec_det(cam) != 0
    &&& 0 < ty <= DIST_INF
    &&& -DIST_INF <= tx <= DIST_INF
    &&& 0 <= col < zbuf.len()
    &&& ty < zbuf[col]
}

/// Everything `visible_sprites` promises of each sprite it returns.
pub open spec fn spec_sprite_view_ok(
    map: GridMap,
    cam: Camera,
    pickups: u32,
    zbuf: Seq<i64>,
    sh: int,
    sin_exit: int,
    sin_coin: int,
    s: SpriteView,
) -> bool {
    &&& spec_sprite_shown(map, cam, pickups, zbuf, s.cell_x as int, s.cell_y as int)
    &&& s.kind == map.spec_cell(s.cell_x as int, s.cell_y as int)
    &&& s.depth == spec_transform_y(cam, 2 * s.cell_x + 1, 2 * s.cell_y + 1)
    &&& s.column == spec_screen_column(
        zbuf.len() as int,
        spec_transform_x(cam, 2 * s.cell_x + 1, 2 * s.cell_y + 1),
        s.depth as int,
    )
    &&& s.column < zbuf.len()
    &&& 0 < s.depth < zbuf[s.column as int]
    &&& s.size == spec_sprite_size(sh, s.depth as int, s.kind)
    &&& s.size >= 0
    &&& s.dest_y == sh / 2 - s.size as int / 2 + spec_bob(
        if s.kind == CELL_EXIT {
            sin_exit
        } else {
            sin_coin
        },
        s.size as int,
        s.kind,
    )
    &&& s.draw_x == s.column as int - s.size as int / 2
}

/// The occlusion test of the sprite pass: a sprite is kept exactly when its
/// center column lies on screen and its depth is strictly nearer than the
/// wall recorded in the z-buffer for that column.
pub fn sprite_visible(depth: i64, column: i64, zbuf: &Vec<i64>) -> (r: bool)
    requires
        zbuf@.len() <= MAX_SCREEN,
    ensures
        r == (0 <= column < zbuf@.len() && depth < zbuf@[column as int]),
{
    0 <= column && column < zbuf.len() as i64 && depth < zbuf[column as usize]
}

/// Transforms the center of cell `(hx, hy)` (half-unit coordinates) into
/// camera space. Yields the horizontal offset and the depth exactly when the
/// camera basis is invertible, the depth is positive, and both components
/// are in sensible range; everything else is discarded.
fn sprite_transform(cam: &Camera, hx: i64, hy: i64) -> (r: Option<(i64, i64)>)
    requires
        cam.wf(),
        1 <= hx <= 127,
        1 <= hy <= 127,
    ensures
        match r {
            Some(t) => spec_det(*cam) != 0 && t.0 == spec_transform_x(*cam, hx as int, hy as int)
                && t.1 == spec_transform_y(*cam, hx as int, hy as int) && -DIST_INF <= t.0
                <= DIST_INF && 0 < t.1 <= DIST_INF,
            None => spec_det(*cam) == 0 || !(0 < spec_transform_y(*cam, hx as int, hy as int)
                <= DIST_INF) || !(-DIST_INF <= spec_transform_x(*cam, hx as int, hy as int)
                <= DIST_INF),
        },
{
    proof {
        assert(NORM_SQ_LIMIT == VEC_NORM_LIMIT * VEC_NORM_LIMIT);
        lemma_norm_box(cam.dir, VEC_NORM_LIMIT as int);
        lemma_norm_box(cam.plane, VEC_NORM_LIMIT as int);
        assert(-10_000_000_000_000 <= cam.plane.x * cam.dir.y <= 10_000_000_000_000
            && -10_000_000_000_000 <= cam.dir.x * cam.plane.y <= 10_000_000_000_000)
            by (nonlinear_arith)
            requires
                -3_000_000 <= cam.dir.x <= 3_000_000,
                -3_000_000 <= cam.dir.y <= 3_000_000,
                -3_000_000 <= cam.plane.x <= 3_000_000,
                -3_000_000 <= cam.plane.y <= 3_000_000,
        ;
    }
    let det: i64 = cam.plane.x * cam.dir.y - cam.dir.x * cam.plane.y;
    if det == 0 {
        return None;
    }
    let srx: i64 = hx * HALF_FP - cam.pos.x;
    let sry: i64 = hy * HALF_FP - cam.pos.y;
    proof {
        assert(-130_000_000 <= srx <= 130_000_000 && -130_000_000 <= sry <= 130_000_000);
        assert(-800_000_000_000_000 <= cam.dir.y * srx <= 800_000_000_000_000
            && -800_000_000_000_000 <= cam.dir.x * sry <= 800_000_000_000_000
            && -800_000_000_000_000 <= cam.plane.x * sry <= 800_000_000_000_000
            && -800_000_000_000_000 <= cam.plane.y * srx <= 800_000_000_000_000)
            by (nonlinear_arith)
            requires
                -3_000_000 <= cam.dir.x <= 3_000_000,
                -3_000_000 <= cam.dir.y <= 3_000_000,
                -3_000_000 <= cam.plane.x <= 3_000_000,
                -3_000_000 <= cam.plane.y <= 3_000_000,
                -130_000_000 <= srx <= 130_000_000,
                -130_000_000 <= sry <= 130_000_000,
        ;
    }
    let num_x: i64 = cam.dir.y * srx - cam.dir.x * sry;
    let num_y: i64 = cam.plane.x * sry - cam.plane.y * srx;
    let ty = match mul_div_checked(num_y, FP, det) {
        Some(v) => v,
        None => {
            return None;
        },
    };
    if ty <= 0 || ty > DIST_INF {
        return None;
    }
    let tx = match mul_div_checked(num_x, FP, det) {
        Some(v) => v,
        None => {
            return None;
        },
    };
    if tx < -DIST_INF || tx > DIST_INF {
        return None;
    }
    Some((tx, ty))
}

/// Collects exactly the sprites drawn this frame: a cell appears if and only
/// if it holds a pickup or the unlocked exit, projects in front of the
/// camera onto an on-screen column, and is strictly nearer than the wall in
/// its z-buffer column. In particular a locked exit is never in the result,
/// and no returned sprite is occluded.
pub fn visible_sprites(
    map: &GridMap,
    cam: &Camera,
    pickups: u32,
    zbuf: &Vec<i64>,
    screen_h: usize,
    sin_exit: i64,
    sin_coin: i64,
) -> (r: Vec<SpriteView>)
    requires
        map.wf(),
        cam.wf(),
        zbuf@.len() <= MAX_SCREEN,
        1 <= screen_h <= MAX_SCREEN,
        -FP <= sin_exit <= FP,
        -FP <= sin_coin <= FP,
    ensures
        forall|k: int|
            0 <= k < r@.len() ==> spec_sprite_view_ok(
                *map,
                *cam,
                pickups,
                zbuf@,
                screen_h as int,
                sin_exit as int,
                sin_coin as int,
                #[trigger] r@[k],
            ),
        forall|x: int, y: int|
            #[trigger] spec_sprite_shown(*map, *cam, pickups, zbuf@, x, y) ==> exists|k: int|
                0 <= k < r@.len() && (#[trigger] r@[k]).cell_x == x && r@[k].cell_y == y,
{
    let mut out: Vec<SpriteView> = Vec::new();
    let mut y: usize = 0;
    while y < map.height
        invariant
            map.wf(),
            cam.wf(),
            zbuf@.len() <= MAX_SCREEN,
            1 <= screen_h <= MAX_SCREEN,
            -FP <= sin_exit <= FP,
            -FP <= sin_coin <= FP,
            0 <= y <= map.height,
            forall|k: int|
                0 <= k < out@.len() ==> spec_sprite_view_ok(
                    *map,
                    *cam,
                    pickups,
                    zbuf@,
                    screen_h as int,
                    sin_exit as int,
                    sin_coin as int,
                    #[trigger] out@[k],
                ),
            forall|xx: int, yy: int|
                #[trigger] spec_sprite_shown(*map, *cam, pickups, zbuf@, xx, yy) && yy < y
                    ==> exists|k: int|
                    0 <= k < out@.len() && (#[trigger] out@[k]).cell_x == xx && out@[k].cell_y
                        == yy,
        decreases map.height - y,
    {
        let mut x: usize = 0;
        while x < map.width
            invariant
                map.wf(),
                cam.wf(),
                zbuf@.len() <= MAX_SCREEN,
                1 <= screen_h <= MAX_SCREEN,
                -FP <= sin_exit <= FP,
                -FP <= sin_coin <= FP,
                0 <= y < map.height,
                0 <= x <= map.width,
                forall|k: int|
                    0 <= k < out@.len() ==> spec_sprite_view_ok(
                        *map,
                        *cam,
                        pickups,
                        zbuf@,
                        screen_h as int,
                        sin_exit as int,
                        sin_coin as int,
                        #[trigger] out@[k],
                    ),
                forall|xx: int, yy: int|
                    #[trigger] spec_sprite_shown(*map, *cam, pickups, zbuf@, xx, yy) && (yy < y
                        || (yy == y && xx < x)) ==> exists|k: int|
                        0 <= k < out@.len() && (#[trigger] out@[k]).cell_x == xx && out@[k].cell_y
                            == yy,
            decreases map.width - x,
        {
            proof {
                assert(y * map.width + x < map.width * map.height <= 4096) by (nonlinear_arith)
                    requires
                        0 <= x < map.width,
                        0 <= y < map.height,
                        map.width <= 64,
                        map.height <= 64,
                ;
            }
            let cell: u8 = map.cells[y * map.width + x];
            let ghost shown = spec_sprite_shown(*map, *cam, pickups, zbuf@, x as int, y as int);
            let wanted: bool = cell == CELL_PICKUP_A || cell == CELL_PICKUP_B || (cell == CELL_EXIT
                && pickups == 0);
            if wanted {
                let hx: i64 = 2 * (x as i64) + 1;
                let hy: i64 = 2 * (y as i64) + 1;
                match sprite_transform(cam, hx, hy) {
                    None => {
                        proof {
                            assert(!shown);
                        }
                    },
                    Some((tx, ty)) => {
                        // The screen column of the sprite center:
                        // sw * (ty + tx) / (2 * ty).
                        let sw: i64 = zbuf.len() as i64;
                        match mul_div_checked(sw, ty + tx, 2 * ty) {
                            None => {
                                proof {
                                    assert(!shown);
                                }
                            },
                            Some(sx_px) => {
                                if sprite_visible(ty, sx_px, zbuf) {
                                    proof {
                                        assert((screen_h as int) * FP <= 16_384_000_000_000_000int)
                                            by (nonlinear_arith)
                                            requires
                                                1 <= screen_h <= 16384,
                                                FP == 1_000_000,
                                        ;
                                        lemma_div_shrinks((screen_h as int) * FP, ty as int);
                                    }
                                    let h0: i64 = mul_div_floor(screen_h as i64, FP, ty);
                                    let scale: i64 = if cell == CELL_EXIT {
                                        85
                                    } else {
                                        45
                                    };
                                    proof {
                                        assert(0 <= h0 * scale <= 2_000_000_000_000int)
                                            by (nonlinear_arith)
                                            requires
                                                0 <= h0 <= 16_384_000_000_000_000int,
                                                0 <= scale <= 85,
                                                h0 <= 16_384_000_000,
                                        ;
                                        lemma_div_shrinks(h0 * scale, 100);
                                    }
                                    let size: i64 = mul_div_floor(h0, scale, 100);
                                    let amp: i64 = if cell == CELL_EXIT {
                                        8
                                    } else {
                                        6
                                    };
                                    proof {
                                        assert(0 <= size * amp <= 20_000_000_000_000int)
                                            by (nonlinear_arith)
                                            requires
                                                0 <= size <= 2_000_000_000_000int,
                                                0 <= amp <= 8,
                                        ;
                                        lemma_div_shrinks(size * amp, 100);
                                        vstd::arithmetic::div_mod::lemma_div_is_ordered(
                                            size * amp,
                                            20_000_000_000_000int,
                                            100,
                                        );
                                    }
                                    let b1: i64 = mul_div_floor(size, amp, 100);
                                    let sin_fp: i64 = if cell == CELL_EXIT {
                                        sin_exit
                                    } else {
                                        sin_coin
                                    };
                                    proof {
                                        assert(-2_000_000_000_000_000_000int <= sin_fp * b1
                                            <= 2_000_000_000_000_000_000int) by (nonlinear_arith)
                                            requires
                                                -1_000_000 <= sin_fp <= 1_000_000,
                                                0 <= b1 <= 200_000_000_000int,
                                        ;
                                        lemma_div_shrinks(sin_fp * b1, FP as int);
                                        vstd::arithmetic::div_mod::lemma_div_is_ordered(
                                            -2_000_000_000_000_000_000int,
                                            sin_fp * b1,
                                            FP as int,
                                        );
                                        vstd::arithmetic::div_mod::lemma_div_is_ordered(
                                            sin_fp * b1,
                                            2_000_000_000_000_000_000int,
                                            FP as int,
                                        );
                                    }
                                    let bob: i64 = mul_div_floor(sin_fp, b1, FP);
                                    let half_sz: i64 = crate::fixed::fdiv(size, 2);
                                    let dest_y: i64 = ((screen_h / 2) as i64) - half_sz + bob;
                                    let draw_x: i64 = sx_px - half_sz;
                                    let sv = SpriteView {
                                        cell_x: x,
                                        cell_y: y,
                                        kind: cell,
                                        depth: ty,
                                        column: sx_px as usize,
                                        draw_x,
                                        dest_y,
                                        size,
                                    };
                                    let ghost out0 = out@;
                                    out.push(sv);
                                    proof {
                                        assert(forall|k: int|
                                            0 <= k < out0.len() ==> #[trigger] out0[k]
                                                == out@[k]);
                                        assert(out@[out0.len() as int].cell_x == x
                                            && out@[out0.len() as int].cell_y == y);
                                    }
                                } else {
                                    proof {
                                        assert(!shown);
                                    }
                                }
                            },
                        }
                    },
                }
            } else {
                proof {
                    assert(!shown);
                }
            }
            x = x + 1;
        }
        y = y + 1;
    }
    out
}

} // verus!
