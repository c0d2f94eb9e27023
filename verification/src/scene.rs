//! The wall rendering pass: for every screen column a ray is cast, and a hit
//! becomes a textured one-pixel-wide vertical slice (projected height, top
//! pixel, texture choice and texel column) plus a z-buffer entry holding the
//! perpendicular wall distance for the sprite pass.

use vstd::prelude::*;
use vstd::arithmetic::div_mod::{lemma_div_is_ordered, lemma_fundamental_div_mod};

verus! {

use crate::FP;
use crate::fixed::{Vec2Fx, DIST_INF, fdiv, mul_div_floor, lemma_div_shrinks};
use crate::camera::{Camera, NORM_SQ_LIMIT, VEC_NORM_LIMIT, lemma_norm_box};
use crate::grid::{GridMap, CELL_EXIT};
use crate::raycast::{RayHit, cast_ray, spec_hit_ok, spec_ray_covered, spec_ray_hit, MAX_RAY};

/// Largest accepted screen dimension, in pixels.
pub const MAX_SCREEN: usize = 16384;

/// The wall texture drawn on a slice, chosen by which reference point the
/// struck cell is closest to; the locked exit always shows the castle.
#[derive(Clone, Copy, PartialEq, Eq, Structural, Debug)]
pub enum WallTexture {
    Plains,
    Forest,
    Castle,
}

/// One drawn wall slice for a screen column.
#[derive(Clone, Copy, PartialEq, Eq, Structural, Debug)]
pub struct ColumnHit {
    pub line_h: i64,
    pub draw_start: i64,
    pub tex: WallTexture,
    pub tex_x: i64,
}

/// Squared distance between two points given in half-cell units.
pub open spec fn spec_dist2(ax: int, ay: int, bx: int, by_: int) -> int {
    (ax - bx) * (ax - bx) + (ay - by_) * (ay - by_)
}

/// `a` is at most the squared distance to an optional reference point; a
/// missing reference counts as infinitely far.
pub open spec fn spec_le_ref(a: int, r: Option<(i64, i64)>, bx: int, by_: int) -> bool {
    match r {
        Some(p) => a <= spec_dist2(bx, by_, p.0 as int, p.1 as int),
        None => true,
    }
}

/// The texture of a struck cell: the locked exit always shows the castle;
/// otherwise the nearest of spawn, pickup and exit reference points wins,
/// ties broken in that order.
pub open spec fn spec_pick_texture(
    cell: u8,
    pickups: u32,
    bx: int,
    by_: int,
    spawn: (i64, i64),
    coin: Option<(i64, i64)>,
    exit_ref: Option<(i64, i64)>,
) -> WallTexture {
    if cell == CELL_EXIT && pickups > 0 {
        WallTexture::Castle
    } else {
        let ds = spec_dist2(bx, by_, spawn.0 as int, spawn.1 as int);
        if spec_le_ref(ds, coin, bx, by_) && spec_le_ref(ds, exit_ref, bx, by_) {
            WallTexture::Plains
        } else if (match coin {
            Some(p) => {
                let dc = spec_dist2(bx, by_, p.0 as int, p.1 as int);
                dc <= ds && spec_le_ref(dc, exit_ref, bx, by_)
            },
            None => false,
        }) {
            WallTexture::Forest
        } else {
            WallTexture::Castle
        }
    }
}

/// Picks the wall texture for a struck cell, by proximity to the spawn,
/// pickup and exit reference points (half-cell units).
pub fn pick_texture(
    cell: u8,
    pickups: u32,
    bx: i64,
    by_: i64,
    spawn: (i64, i64),
    coin: Option<(i64, i64)>,
    exit_ref: Option<(i64, i64)>,
) -> (t: WallTexture)
    requires
        -1000 <= bx <= 1000,
        -1000 <= by_ <= 1000,
        -1000 <= spawn.0 <= 1000 && -1000 <= spawn.1 <= 1000,
        coin matches Some(p) ==> -1000 <= p.0 <= 1000 && -1000 <= p.1 <= 1000,
        exit_ref matches Some(p) ==> -1000 <= p.0 <= 1000 && -1000 <= p.1 <= 1000,
    ensures
        t == spec_pick_texture(cell, pickups, bx as int, by_ as int, spawn, coin, exit_ref),
{
    if cell == CELL_EXIT && pickups > 0 {
        return WallTexture::Castle;
    }
    let ds = dist2(bx, by_, spawn.0, spawn.1);
    let dc_le_ds: bool = match coin {
        Some(p) => dist2(bx, by_, p.0, p.1) <= ds,
        None => false,
    };
    let ds_le_dc: bool = match coin {
        Some(p) => ds <= dist2(bx, by_, p.0, p.1),
        None => true,
    };
    let ds_le_de: bool = match exit_ref {
        Some(p) => ds <= dist2(bx, by_, p.0, p.1),
        None => true,
    };
    if ds_le_dc && ds_le_de {
        return WallTexture::Plains;
    }
    let dc_le_de: bool = match (coin, exit_ref) {
        (Some(p), Some(q)) => dist2(bx, by_, p.0, p.1) <= dist2(bx, by_, q.0, q.1),
        (Some(_), None) => true,
        (None, _) => false,
    };
    if dc_le_ds && dc_le_de {
        return WallTexture::Forest;
    }
    WallTexture::Castle
}

/// Squared distance between two points in half-cell units.
fn dist2(ax: i64, ay: i64, bx: i64, by_: i64) -> (r: i64)
    requires
        -1000 <= ax <= 1000,
        -1000 <= ay <= 1000,
        -1000 <= bx <= 1000,
        -1000 <= by_ <= 1000,
    ensures
        r == spec_dist2(ax as int, ay as int, bx as int, by_ as int),
        0 <= r <= 8_000_000,
{
    let dx = ax - bx;
    let dy = ay - by_;
    proof {
        assert(0 <= dx * dx <= 4_000_000 && 0 <= dy * dy <= 4_000_000) by (nonlinear_arith)
            requires
                -2000 <= dx <= 2000,
                -2000 <= dy <= 2000,
        ;
    }
    dx * dx + dy * dy
}

/// The projected height in pixels of a wall at perpendicular distance
/// `perp`, clamped away from a near-zero distance.
pub open spec fn spec_line_height(sh: int, perp: int) -> int {
    (sh * FP) / (if perp < 100 {
        100int
    } else {
        perp
    })
}

/// The top pixel of a wall slice: centered vertically, clamped at the screen
/// top.
pub open spec fn spec_draw_start(sh: int, line_h: int) -> int {
    let d = sh / 2 - line_h / 2;
    if d < 0 {
        0int
    } else {
        d
    }
}

/// The fractional wall-hit coordinate, in `FP` units within one cell: the
/// non-integer component of the struck axis' position.
pub open spec fn spec_wall_frac(pos: Vec2Fx, rd: Vec2Fx, h: RayHit) -> int {
    let wc = if h.side == 0 {
        pos.y + (h.perp * rd.y) / (FP as int)
    } else {
        pos.x + (h.perp * rd.x) / (FP as int)
    };
    wc % (FP as int)
}

/// The ray direction for screen column `x`: the camera direction plus the
/// plane scaled by the column's normalized offset in `[-1, 1]`.
pub open spec fn spec_ray_dir(cam: Camera, x: int, sw: int) -> Vec2Fx {
    let camx = (2 * x * FP) / sw - FP;
    Vec2Fx {
        x: (cam.dir.x + (cam.plane.x * camx) / (FP as int)) as i64,
        y: (cam.dir.y + (cam.plane.y * camx) / (FP as int)) as i64,
    }
}

/// Everything the wall pass promises of one rendered column: the z-buffer
/// entry is positive and at most the no-hit sentinel; a drawn slice comes
/// from a genuine blocking-cell hit of that column's ray, with the slice
/// geometry, texture and z-buffer entry computed from that hit; and a ray
/// from strictly inside a wall-bordered map always yields a slice.
pub open spec fn spec_column_ok(
    map: GridMap,
    cam: Camera,
    pickups: u32,
    sw: int,
    sh: int,
    spawn: (i64, i64),
    coin: Option<(i64, i64)>,
    exit_ref: Option<(i64, i64)>,
    x: int,
    col: Option<ColumnHit>,
    z: i64,
) -> bool {
    let rdv = spec_ray_dir(cam, x, sw);
    &&& 0 < z <= DIST_INF
    &&& match col {
        Some(ch) => exists|hit: RayHit|
            {
                &&& #[trigger] spec_hit_ok(map, cam.pos, rdv, pickups, hit)
                &&& z == if hit.perp > 0 {
                    hit.perp
                } else {
                    DIST_INF
                }
                &&& ch.line_h == spec_line_height(sh, hit.perp as int)
                &&& ch.draw_start == spec_draw_start(sh, ch.line_h as int)
                &&& 0 <= ch.tex_x < FP
                &&& ch.tex_x == spec_wall_frac(cam.pos, rdv, hit)
                &&& ch.tex == spec_pick_texture(
                    hit.cell,
                    pickups,
                    2 * hit.cell_x + 1,
                    2 * hit.cell_y + 1,
                    spawn,
                    coin,
                    exit_ref,
                )
            },
        None => z == DIST_INF && !spec_ray_covered(map, cam.pos, rdv) && (!(rdv.x == 0 && rdv.y
            == 0) ==> spec_ray_hit(map, cam.pos, rdv, pickups) is None),
    }
}

/// Renders one screen column: casts the column's ray and, on a hit, computes
/// the wall slice geometry and texture; the second result is the column's
/// z-buffer entry.
pub fn render_column(
    map: &GridMap,
    cam: &Camera,
    pickups: u32,
    x: usize,
    screen_w: usize,
    screen_h: usize,
    spawn: (i64, i64),
    coin: Option<(i64, i64)>,
    exit_ref: Option<(i64, i64)>,
) -> (r: (Option<ColumnHit>, i64))
    requires
        map.wf(),
        cam.wf(),
        0 <= cam.pos.x < map.width * FP,
        0 <= cam.pos.y < map.height * FP,
        x < screen_w,
        1 <= screen_w <= MAX_SCREEN,
        1 <= screen_h <= MAX_SCREEN,
        -1000 <= spawn.0 <= 1000 && -1000 <= spawn.1 <= 1000,
        coin matches Some(p) ==> -1000 <= p.0 <= 1000 && -1000 <= p.1 <= 1000,
        exit_ref matches Some(p) ==> -1000 <= p.0 <= 1000 && -1000 <= p.1 <= 1000,
    ensures
        spec_column_ok(
            *map,
            *cam,
            pickups,
            screen_w as int,
            screen_h as int,
            spawn,
            coin,
            exit_ref,
            x as int,
            r.0,
            r.1,
        ),
{
    proof {
        assert(NORM_SQ_LIMIT == VEC_NORM_LIMIT * VEC_NORM_LIMIT);
        lemma_norm_box(cam.dir, VEC_NORM_LIMIT as int);
        lemma_norm_box(cam.plane, VEC_NORM_LIMIT as int);
        assert(2 * (x as int) * FP <= 32_768_000_000) by (nonlinear_arith)
            requires
                0 <= x <= 16384,
                FP == 1_000_000,
        ;
        lemma_div_shrinks(2 * (x as int) * FP, screen_w as int);
        lemma_div_is_ordered(2 * (x as int) * FP, 2 * (screen_w as int) * FP, screen_w as int);
        assert(2 * (x as int) * FP <= 2 * (screen_w as int) * FP) by (nonlinear_arith)
            requires
                0 <= x < screen_w,
                FP == 1_000_000,
        ;
        assert((2 * (screen_w as int) * FP) / (screen_w as int) == 2 * FP) by {
            vstd::arithmetic::div_mod::lemma_fundamental_div_mod_converse(
                2 * (screen_w as int) * FP,
                screen_w as int,
                2 * FP,
                0,
            );
            assert(2 * (screen_w as int) * FP == (2 * FP) * (screen_w as int) + 0)
                by (nonlinear_arith);
        }
    }
    let camx: i64 = fdiv(2 * (x as i64) * FP, screen_w as i64) - FP;
    proof {
        assert(-1_000_000 <= camx <= 1_000_000);
        assert(-3_000_000_000_000 <= cam.plane.x * camx <= 3_000_000_000_000
            && -3_000_000_000_000 <= cam.plane.y * camx <= 3_000_000_000_000) by (nonlinear_arith)
            requires
                -3_000_000 <= cam.plane.x <= 3_000_000,
                -3_000_000 <= cam.plane.y <= 3_000_000,
                -1_000_000 <= camx <= 1_000_000,
        ;
        lemma_div_shrinks(cam.plane.x * camx, FP as int);
        lemma_div_shrinks(cam.plane.y * camx, FP as int);
        lemma_div_is_ordered(-3_000_000_000_000, cam.plane.x * camx, FP as int);
        lemma_div_is_ordered(cam.plane.x * camx, 3_000_000_000_000, FP as int);
        lemma_div_is_ordered(-3_000_000_000_000, cam.plane.y * camx, FP as int);
        lemma_div_is_ordered(cam.plane.y * camx, 3_000_000_000_000, FP as int);
    }
    let rdx: i64 = cam.dir.x + mul_div_floor(cam.plane.x, camx, FP);
    let rdy: i64 = cam.dir.y + mul_div_floor(cam.plane.y, camx, FP);
    let rd = Vec2Fx { x: rdx, y: rdy };
    let hit_opt = cast_ray(map, cam.pos, rd, pickups);
    match hit_opt {
        None => (None, DIST_INF),
        Some(hit) => {
            let z: i64 = if hit.perp > 0 {
                hit.perp
            } else {
                DIST_INF
            };
            let clamped: i64 = if hit.perp < 100 {
                100
            } else {
                hit.perp
            };
            proof {
                assert((screen_h as int) * FP <= 16_384_000_000 * 1_000_000int) by (nonlinear_arith)
                    requires
                        1 <= screen_h <= 16384,
                        FP == 1_000_000,
                ;
                lemma_div_shrinks((screen_h as int) * FP, clamped as int);
            }
            let line_h: i64 = mul_div_floor(screen_h as i64, FP, clamped);
            let half: i64 = (screen_h as i64) / 2 - line_h / 2;
            let draw_start: i64 = if half < 0 {
                0
            } else {
                half
            };
            // The fractional wall coordinate along the struck wall.
            let along: i64 = if hit.side == 0 {
                rd.y
            } else {
                rd.x
            };
            let base: i64 = if hit.side == 0 {
                cam.pos.y
            } else {
                cam.pos.x
            };
            proof {
                assert(-512_000_000_000_000_000_000int <= hit.perp * along
                    <= 512_000_000_000_000_000_000int) by (nonlinear_arith)
                    requires
                        0 <= hit.perp <= 64_000_000_000_000,
                        -8_000_000 <= along <= 8_000_000,
                ;
                lemma_div_shrinks(hit.perp * along, FP as int);
                lemma_div_is_ordered(-512_000_000_000_000_000_000int, hit.perp * along, FP as int);
                lemma_div_is_ordered(hit.perp * along, 512_000_000_000_000_000_000int, FP as int);
            }
            let travel: i64 = mul_div_floor(hit.perp, along, FP);
            let wc: i64 = base + travel;
            let q: i64 = fdiv(wc, FP);
            proof {
                lemma_fundamental_div_mod(wc as int, FP as int);
            }
            let tex_x: i64 = wc - q * FP;
            let tex = pick_texture(
                hit.cell,
                pickups,
                2 * (hit.cell_x as i64) + 1,
                2 * (hit.cell_y as i64) + 1,
                spawn,
                coin,
                exit_ref,
            );
            let ch = ColumnHit { line_h, draw_start, tex, tex_x };
            proof {
                let rdv = spec_ray_dir(*cam, x as int, screen_w as int);
                assert(rdv == rd);
                assert(spec_hit_ok(*map, cam.pos, rdv, pickups, hit));
                assert(ch.tex_x == spec_wall_frac(cam.pos, rdv, hit));
                assert(ch.line_h == spec_line_height(screen_h as int, hit.perp as int));
            }
            (Some(ch), z)
        },
    }
}

/// Renders every wall column of a frame and builds the z-buffer; entry `x`
/// of each sequence is screen column `x`.
pub fn render_walls(
    map: &GridMap,
    cam: &Camera,
    pickups: u32,
    screen_w: usize,
    screen_h: usize,
    spawn: (i64, i64),
    coin: Option<(i64, i64)>,
    exit_ref: Option<(i64, i64)>,
) -> (r: (Vec<Option<ColumnHit>>, Vec<i64>))
    requires
        map.wf(),
        cam.wf(),
        0 <= cam.pos.x < map.width * FP,
        0 <= cam.pos.y < map.height * FP,
        1 <= screen_w <= MAX_SCREEN,
        1 <= screen_h <= MAX_SCREEN,
        -1000 <= spawn.0 <= 1000 && -1000 <= spawn.1 <= 1000,
        coin matches Some(p) ==> -1000 <= p.0 <= 1000 && -1000 <= p.1 <= 1000,
        exit_ref matches Some(p) ==> -1000 <= p.0 <= 1000 && -1000 <= p.1 <= 1000,
    ensures
        r.0@.len() == screen_w,
        r.1@.len() == screen_w,
        forall|i: int|
            0 <= i < screen_w ==> #[trigger] spec_column_ok(
                *map,
                *cam,
                pickups,
                screen_w as int,
                screen_h as int,
                spawn,
                coin,
                exit_ref,
                i,
                r.0@[i],
                r.1@[i],
            ),
        forall|i: int| 0 <= i < screen_w ==> 0 < #[trigger] r.1@[i] <= DIST_INF,
{
    let mut cols: Vec<Option<ColumnHit>> = Vec::new();
    let mut zbuf: Vec<i64> = Vec::new();
    let mut x: usize = 0;
    while x < screen_w
        invariant
            map.wf(),
            cam.wf(),
            0 <= cam.pos.x < map.width * FP,
            0 <= cam.pos.y < map.height * FP,
            1 <= screen_w <= MAX_SCREEN,
            1 <= screen_h <= MAX_SCREEN,
            -1000 <= spawn.0 <= 1000 && -1000 <= spawn.1 <= 1000,
            coin matches Some(p) ==> -1000 <= p.0 <= 1000 && -1000 <= p.1 <= 1000,
            exit_ref matches Some(p) ==> -1000 <= p.0 <= 1000 && -1000 <= p.1 <= 1000,
            0 <= x <= screen_w,
            cols@.len() == x,
            zbuf@.len() == x,
            forall|i: int|
                0 <= i < x ==> #[trigger] spec_column_ok(
                    *map,
                    *cam,
                    pickups,
                    screen_w as int,
                    screen_h as int,
                    spawn,
                    coin,
                    exit_ref,
                    i,
                    cols@[i],
                    zbuf@[i],
                ),
            forall|i: int| 0 <= i < x ==> 0 < #[trigger] zbuf@[i] <= DIST_INF,
        decreases screen_w - x,
    {
        let (col, z) = render_column(
            map,
            cam,
            pickups,
            x,
            screen_w,
            screen_h,
            spawn,
            coin,
            exit_ref,
        );
        cols.push(col);
        zbuf.push(z);
        x = x + 1;
    }
    (cols, zbuf)
}

} // verus!
