//! The raycaster: one grid-traversal (DDA) ray per screen column. The ray
//! walks cell by cell, advancing the axis whose accumulated side distance is
//! smaller, until it meets a blocking cell or leaves the map. The whole
//! traversal is itself a specification function, so a returned hit is pinned
//! to the first blocking cell the ray's traversal visits, and a miss to the
//! traversal leaving the map.

use vstd::prelude::*;
use vstd::arithmetic::div_mod::{lemma_div_is_ordered, lemma_fundamental_div_mod};

verus! {

use crate::FP;
use crate::fixed::{Vec2Fx, DIST_INF, div_floor, fdiv, mul_div_floor, lemma_div_shrinks};
use crate::camera::abs_of;
use crate::grid::{GridMap, spec_blocking, is_blocking, CELL_WALL};
use crate::movement::spec_cell_of;

/// Largest ray direction component accepted by the raycaster (the camera
/// direction plus the full projection plane stays far below this).
pub const MAX_RAY: i64 = 8_000_000;

/// One wall hit: the struck cell, the side struck (0 for a vertical grid
/// line, 1 for a horizontal one) and the perpendicular distance in `FP`
/// units.
#[derive(Clone, Copy, Debug)]
pub struct RayHit {
    pub cell_x: usize,
    pub cell_y: usize,
    pub side: u8,
    pub cell: u8,
    pub perp: i64,
}

/// The cursor of the grid traversal: the current cell and the accumulated
/// side distances of the next vertical and horizontal grid-line crossings.
pub struct DdaCursor {
    pub map_x: int,
    pub map_y: int,
    pub sdx: int,
    pub sdy: int,
}

/// The step direction of one axis: toward negative for a negative ray
/// component, toward positive otherwise.
pub open spec fn spec_step(rc: int) -> int {
    if rc < 0 {
        -1int
    } else {
        1int
    }
}

/// The side distance gained per cell step on one axis; a zero ray component
/// never advances, which the sentinel stands for.
pub open spec fn spec_delta(rc: int) -> int {
    if rc == 0 {
        DIST_INF as int
    } else {
        div_floor(FP * FP, abs_of(rc))
    }
}

/// The initial side distance of one axis: the fraction of the current cell
/// still ahead of the position, scaled by the per-cell distance.
pub open spec fn spec_sd0(p: int, rc: int) -> int {
    if rc == 0 {
        DIST_INF as int
    } else {
        let cell = p / (FP as int);
        let frac = if rc < 0 {
            p - cell * FP
        } else {
            cell * FP + FP - p
        };
        div_floor(frac * spec_delta(rc), FP as int)
    }
}

/// The traversal's starting cursor for a ray from `pos` along `rd`.
pub open spec fn spec_init_cursor(pos: Vec2Fx, rd: Vec2Fx) -> DdaCursor {
    DdaCursor {
        map_x: pos.x as int / (FP as int),
        map_y: pos.y as int / (FP as int),
        sdx: spec_sd0(pos.x as int, rd.x as int),
        sdy: spec_sd0(pos.y as int, rd.y as int),
    }
}

/// The grid traversal itself: step the axis whose accumulated side distance
/// is smaller, stop at the first blocking cell entered (the struck cell and
/// side) or on leaving the map (`None`).
pub open spec fn spec_dda(
    map: GridMap,
    pickups: u32,
    rd: Vec2Fx,
    cur: DdaCursor,
    fuel: nat,
) -> Option<(int, int, int)>
    decreases fuel,
{
    if fuel == 0 {
        None
    } else {
        let xsel = cur.sdx < cur.sdy;
        let nxt = if xsel {
            DdaCursor {
                map_x: cur.map_x + spec_step(rd.x as int),
                map_y: cur.map_y,
                sdx: cur.sdx + spec_delta(rd.x as int),
                sdy: cur.sdy,
            }
        } else {
            DdaCursor {
                map_x: cur.map_x,
                map_y: cur.map_y + spec_step(rd.y as int),
                sdx: cur.sdx,
                sdy: cur.sdy + spec_delta(rd.y as int),
            }
        };
        if !map.in_bounds(nxt.map_x, nxt.map_y) {
            None
        } else if spec_blocking(map.spec_cell(nxt.map_x, nxt.map_y), pickups) {
            Some(
                (
                    nxt.map_x,
                    nxt.map_y,
                    if xsel {
                        0int
                    } else {
                        1int
                    },
                ),
            )
        } else {
            spec_dda(map, pickups, rd, nxt, (fuel - 1) as nat)
        }
    }
}

/// The cell and side a ray strikes: the first blocking cell its traversal
/// visits, or `None` when the traversal leaves the map first. The fuel bound
/// covers any traversal that stays inside the map, since every step moves
/// one cell closer to a border.
pub open spec fn spec_ray_hit(map: GridMap, pos: Vec2Fx, rd: Vec2Fx, pickups: u32) -> Option<
    (int, int, int),
> {
    spec_dda(map, pickups, rd, spec_init_cursor(pos, rd), (map.width + map.height + 2) as nat)
}

/// The perpendicular distance of a hit on a vertical grid line, by the
/// standard formula: the x distance from the camera to the struck line,
/// divided by the ray's x component.
pub open spec fn spec_perp_x(pos: Vec2Fx, rd: Vec2Fx, cell_x: int) -> int {
    if rd.x > 0 {
        ((cell_x * FP - pos.x) * FP) / (rd.x as int)
    } else {
        ((pos.x - cell_x * FP - FP) * FP) / (-rd.x as int)
    }
}

/// The perpendicular distance of a hit on a horizontal grid line.
pub open spec fn spec_perp_y(pos: Vec2Fx, rd: Vec2Fx, cell_y: int) -> int {
    if rd.y > 0 {
        ((cell_y * FP - pos.y) * FP) / (rd.y as int)
    } else {
        ((pos.y - cell_y * FP - FP) * FP) / (-rd.y as int)
    }
}

/// Everything `cast_ray` promises of a hit it returns: the struck cell is
/// the first blocking cell of the ray's traversal, and the perpendicular
/// distance follows the standard formula for the struck side.
pub open spec fn spec_hit_ok(map: GridMap, pos: Vec2Fx, rd: Vec2Fx, pickups: u32, h: RayHit) -> bool {
    &&& spec_ray_hit(map, pos, rd, pickups) == Some(
        (h.cell_x as int, h.cell_y as int, h.side as int),
    )
    &&& map.in_bounds(h.cell_x as int, h.cell_y as int)
    &&& h.cell == map.spec_cell(h.cell_x as int, h.cell_y as int)
    &&& spec_blocking(h.cell, pickups)
    &&& h.perp >= 0
    &&& h.perp <= 64_000_000_000_000
    &&& (h.side == 0 || h.side == 1)
    &&& (h.side == 0 ==> rd.x != 0 && h.perp == spec_perp_x(pos, rd, h.cell_x as int))
    &&& (h.side == 1 ==> rd.y != 0 && h.perp == spec_perp_y(pos, rd, h.cell_y as int))
}

/// A ray that cannot miss: cast from a cell strictly inside a wall-bordered
/// map, with a direction that is not the zero vector.
pub open spec fn spec_ray_covered(map: GridMap, pos: Vec2Fx, rd: Vec2Fx) -> bool {
    &&& map.has_wall_border()
    &&& !(rd.x == 0 && rd.y == 0)
    &&& 1 <= spec_cell_of(pos.x as int) <= map.width - 2
    &&& 1 <= spec_cell_of(pos.y as int) <= map.height - 2
}

/// Casts one ray from `pos` along `rd` and walks the grid until a blocking
/// cell is struck or the ray leaves the map. The result equals the
/// specification traversal `spec_ray_hit`: a hit is the first blocking cell
/// the ray's traversal enters, with the perpendicular distance given by the
/// standard formula for the struck side, and a miss means the traversal left
/// the map, which cannot happen from strictly inside a wall-bordered map.
pub fn cast_ray(map: &GridMap, pos: Vec2Fx, rd: Vec2Fx, pickups: u32) -> (r: Option<RayHit>)
    requires
        map.wf(),
        0 <= pos.x < map.width * FP,
        0 <= pos.y < map.height * FP,
        -MAX_RAY <= rd.x <= MAX_RAY,
        -MAX_RAY <= rd.y <= MAX_RAY,
    ensures
        match r {
            Some(h) => spec_hit_ok(*map, pos, rd, pickups, h),
            None => !spec_ray_covered(*map, pos, rd) && (!(rd.x == 0 && rd.y == 0)
                ==> spec_ray_hit(*map, pos, rd, pickups) is None),
        },
{
    let w: i64 = map.width as i64;
    let h: i64 = map.height as i64;
    let sx: i64 = fdiv(pos.x, FP);
    let sy: i64 = fdiv(pos.y, FP);
    proof {
        lemma_cell_in_range(pos.x as int, w as int);
        lemma_cell_in_range(pos.y as int, h as int);
        lemma_fundamental_div_mod(pos.x as int, FP as int);
        lemma_fundamental_div_mod(pos.y as int, FP as int);
    }
    let mut map_x: i64 = sx;
    let mut map_y: i64 = sy;

    let (delta_x, step_x, sdx0): (i64, i64, i64) = if rd.x == 0 {
        (DIST_INF, 1, DIST_INF)
    } else {
        let den: i64 = if rd.x < 0 {
            -rd.x
        } else {
            rd.x
        };
        proof {
            lemma_div_shrinks(FP * FP, den as int);
            assert(FP * FP / (den as int) >= 1) by (nonlinear_arith)
                requires
                    1 <= den <= 8_000_000,
                    FP == 1_000_000,
            ;
        }
        let dd: i64 = mul_div_floor(FP, FP, den);
        let frac: i64 = if rd.x < 0 {
            pos.x - map_x * FP
        } else {
            map_x * FP + FP - pos.x
        };
        proof {
            assert(frac * dd <= 2_000_000_000_000_000_000) by (nonlinear_arith)
                requires
                    0 <= frac <= 2_000_000,
                    0 <= dd <= 1_000_000_000_000,
            ;
            lemma_div_shrinks(frac * dd, FP as int);
            lemma_div_is_ordered(frac * dd, 2_000_000_000_000_000_000, FP as int);
        }
        let sd: i64 = mul_div_floor(frac, dd, FP);
        (dd, if rd.x < 0 { -1 } else { 1 }, sd)
    };
    let (delta_y, step_y, sdy0): (i64, i64, i64) = if rd.y == 0 {
        (DIST_INF, 1, DIST_INF)
    } else {
        let den: i64 = if rd.y < 0 {
            -rd.y
        } else {
            rd.y
        };
        proof {
            lemma_div_shrinks(FP * FP, den as int);
            assert(FP * FP / (den as int) >= 1) by (nonlinear_arith)
                requires
                    1 <= den <= 8_000_000,
                    FP == 1_000_000,
            ;
        }
        let dd: i64 = mul_div_floor(FP, FP, den);
        let frac: i64 = if rd.y < 0 {
            pos.y - map_y * FP
        } else {
            map_y * FP + FP - pos.y
        };
        proof {
            assert(frac * dd <= 2_000_000_000_000_000_000) by (nonlinear_arith)
                requires
                    0 <= frac <= 2_000_000,
                    0 <= dd <= 1_000_000_000_000,
            ;
            lemma_div_shrinks(frac * dd, FP as int);
            lemma_div_is_ordered(frac * dd, 2_000_000_000_000_000_000, FP as int);
        }
        let sd: i64 = mul_div_floor(frac, dd, FP);
        (dd, if rd.y < 0 { -1 } else { 1 }, sd)
    };

    let mut side_dist_x: i64 = sdx0;
    let mut side_dist_y: i64 = sdy0;
    let mut done: bool = false;
    let mut result: Option<RayHit> = None;
    let ghost mut fuel: int = (map.width + map.height + 2) as int;

    proof {
        assert(spec_init_cursor(pos, rd) == (DdaCursor {
            map_x: map_x as int,
            map_y: map_y as int,
            sdx: side_dist_x as int,
            sdy: side_dist_y as int,
        }));
    }

    while !done
        invariant
            map.wf(),
            w == map.width,
            h == map.height,
            0 <= pos.x < map.width * FP,
            0 <= pos.y < map.height * FP,
            -MAX_RAY <= rd.x <= MAX_RAY,
            -MAX_RAY <= rd.y <= MAX_RAY,
            sx == spec_cell_of(pos.x as int),
            sy == spec_cell_of(pos.y as int),
            0 <= sx < w,
            0 <= sy < h,
            FP * sx <= pos.x < FP * sx + FP,
            FP * sy <= pos.y < FP * sy + FP,
            step_x == spec_step(rd.x as int),
            step_y == spec_step(rd.y as int),
            delta_x == spec_delta(rd.x as int),
            delta_y == spec_delta(rd.y as int),
            1 <= delta_x <= DIST_INF,
            1 <= delta_y <= DIST_INF,
            rd.x != 0 ==> delta_x <= 1_000_000_000_000,
            rd.y != 0 ==> delta_y <= 1_000_000_000_000,
            !done ==> {
                &&& 0 <= map_x < w
                &&& 0 <= map_y < h
                &&& (step_x == 1 ==> sx <= map_x)
                &&& (step_x == -1 ==> map_x <= sx)
                &&& (step_y == 1 ==> sy <= map_y)
                &&& (step_y == -1 ==> map_y <= sy)
                &&& 0 <= side_dist_x <= DIST_INF * (1 + abs_of(map_x - sx) + abs_of(map_y - sy))
                &&& 0 <= side_dist_y <= DIST_INF * (1 + abs_of(map_x - sx) + abs_of(map_y - sy))
                &&& (rd.x != 0 ==> side_dist_x <= 2_000_000_000_000 + abs_of(map_x - sx) * delta_x)
                &&& (rd.y != 0 ==> side_dist_y <= 2_000_000_000_000 + abs_of(map_y - sy) * delta_y)
                &&& (rd.x == 0 && rd.y != 0 ==> side_dist_x == DIST_INF && map_x == sx)
                &&& (rd.y == 0 && rd.x != 0 ==> side_dist_y == DIST_INF && map_y == sy)
                &&& fuel >= (if step_x == 1 { w - map_x } else { map_x + 1 }) + (if step_y == 1 { h - map_y } else { map_y + 1 })
                &&& spec_dda(*map, pickups, rd, DdaCursor {
                    map_x: map_x as int,
                    map_y: map_y as int,
                    sdx: side_dist_x as int,
                    sdy: side_dist_y as int,
                }, fuel as nat) == spec_ray_hit(*map, pos, rd, pickups)
                &&& (spec_ray_covered(*map, pos, rd) ==> 1 <= map_x <= w - 2 && 1 <= map_y <= h
                    - 2)
            },
            done ==> match result {
                Some(hit) => spec_hit_ok(*map, pos, rd, pickups, hit),
                None => !spec_ray_covered(*map, pos, rd) && (!(rd.x == 0 && rd.y == 0)
                    ==> spec_ray_hit(*map, pos, rd, pickups) is None),
            },
        decreases
            (if done { 0int } else { 1int }),
            (if step_x == 1 { w - map_x } else { map_x + 1 }) + (if step_y == 1 { h - map_y } else { map_y + 1 }),
    {
        let ghost cur0 = DdaCursor {
            map_x: map_x as int,
            map_y: map_y as int,
            sdx: side_dist_x as int,
            sdy: side_dist_y as int,
        };
        let xsel: bool = side_dist_x < side_dist_y;
        let side: u8 = if xsel { 0 } else { 1 };
        proof {
            // A ray with exactly one zero component never advances that
            // axis: its side distance stays at the sentinel while the other
            // axis stays strictly below it.
            if rd.x == 0 && rd.y != 0 {
                assert(0 <= abs_of(map_y - sy) <= 126);
                assert(abs_of(map_y - sy) * delta_y <= 126_000_000_000_000int) by (nonlinear_arith)
                    requires
                        0 <= abs_of(map_y - sy) <= 126,
                        0 <= delta_y <= 1_000_000_000_000,
                ;
                assert(!xsel);
            }
            if rd.y == 0 && rd.x != 0 {
                assert(0 <= abs_of(map_x - sx) <= 126);
                assert(abs_of(map_x - sx) * delta_x <= 126_000_000_000_000int) by (nonlinear_arith)
                    requires
                        0 <= abs_of(map_x - sx) <= 126,
                        0 <= delta_x <= 1_000_000_000_000,
                ;
                assert(xsel);
            }
        }
        if xsel {
            side_dist_x = side_dist_x + delta_x;
            map_x = map_x + step_x;
        } else {
            side_dist_y = side_dist_y + delta_y;
            map_y = map_y + step_y;
        }
        proof {
            // One unfolding of the traversal: the exec step mirrors it.
            assert(fuel >= 1);
            fuel = fuel - 1;
            if xsel && rd.x != 0 {
                assert(abs_of(map_x - sx) == abs_of(cur0.map_x - sx) + 1);
                assert(abs_of(cur0.map_x - sx) * delta_x + delta_x == abs_of(map_x - sx) * delta_x)
                    by (nonlinear_arith)
                    requires
                        abs_of(map_x - sx) == abs_of(cur0.map_x - sx) + 1,
                ;
            }
            if !xsel && rd.y != 0 {
                assert(abs_of(map_y - sy) == abs_of(cur0.map_y - sy) + 1);
                assert(abs_of(cur0.map_y - sy) * delta_y + delta_y == abs_of(map_y - sy) * delta_y)
                    by (nonlinear_arith)
                    requires
                        abs_of(map_y - sy) == abs_of(cur0.map_y - sy) + 1,
                ;
            }
        }
        if map_x < 0 || map_x >= w || map_y < 0 || map_y >= h {
            // The traversal left the map without meeting a blocking cell;
            // impossible from strictly inside a wall-bordered map, whose ring
            // would have blocked first.
            done = true;
            result = None;
        } else {
            proof {
                assert(map_y * map.width + map_x < map.width * map.height <= 4096)
                    by (nonlinear_arith)
                    requires
                        0 <= map_x < map.width,
                        0 <= map_y < map.height,
                        map.width <= 64,
                        map.height <= 64,
                ;
            }
            let cell: u8 = map.cells[(map_y as usize) * map.width + (map_x as usize)];
            if is_blocking(cell, pickups) {
                if side == 0 {
                    if rd.x == 0 {
                        // Only a ray with both components zero can strike on
                        // its zero axis; such a ray has no finite distance
                        // and is not covered by the always-hits guarantee.
                        done = true;
                        result = None;
                    } else {
                        let den: i64 = if rd.x < 0 { -rd.x } else { rd.x };
                        let num: i64 = if rd.x > 0 {
                            map_x * FP - pos.x
                        } else {
                            pos.x - map_x * FP - FP
                        };
                        proof {
                            assert(num * FP <= 64_000_000_000_000) by (nonlinear_arith)
                                requires
                                    0 <= num <= 64_000_000,
                                    FP == 1_000_000,
                            ;
                            lemma_div_shrinks(num * FP, den as int);
                        }
                        let perp: i64 = mul_div_floor(num, FP, den);
                        done = true;
                        result = Some(
                            RayHit {
                                cell_x: map_x as usize,
                                cell_y: map_y as usize,
                                side: 0,
                                cell,
                                perp,
                            },
                        );
                    }
                } else {
                    if rd.y == 0 {
                        done = true;
                        result = None;
                    } else {
                        let den: i64 = if rd.y < 0 { -rd.y } else { rd.y };
                        let num: i64 = if rd.y > 0 {
                            map_y * FP - pos.y
                        } else {
                            pos.y - map_y * FP - FP
                        };
                        proof {
                            assert(num * FP <= 64_000_000_000_000) by (nonlinear_arith)
                                requires
                                    0 <= num <= 64_000_000,
                                    FP == 1_000_000,
                            ;
                            lemma_div_shrinks(num * FP, den as int);
                        }
                        let perp: i64 = mul_div_floor(num, FP, den);
                        done = true;
                        result = Some(
                            RayHit {
                                cell_x: map_x as usize,
                                cell_y: map_y as usize,
                                side: 1,
                                cell,
                                perp,
                            },
                        );
                    }
                }
            } else {
                proof {
                    if spec_ray_covered(*map, pos, rd) {
                        // A non-blocking cell cannot lie on the wall ring.
                        assert(map.spec_cell(map_x as int, map_y as int) == cell);
                        if map_x == 0 || map_x == w - 1 || map_y == 0 || map_y == h - 1 {
                            assert(map.spec_cell(map_x as int, map_y as int) == CELL_WALL);
                        }
                    }
                }
            }
        }
    }
    result
}

/// A fixed-point coordinate inside the map rectangle lies in a cell inside
/// the map.
proof fn lemma_cell_in_range(p: int, w: int)
    requires
        0 <= p,
        p < w * 1_000_000,
        1 <= w <= 64,
    ensures
        0 <= p / (FP as int) < w,
{
    lemma_div_shrinks(p, FP as int);
    lemma_fundamental_div_mod(p, FP as int);
    let q = p / (FP as int);
    assert(q < w) by (nonlinear_arith)
        requires
            p == 1_000_000 * q + p % 1_000_000,
            0 <= p % 1_000_000 < 1_000_000,
            p < w * 1_000_000,
            q >= 0,
    ;
}

} // verus!
