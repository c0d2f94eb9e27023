//! The per-level game state and its two-phase state machine: the level is
//! explored until the player, standing on the exit cell with every pickup
//! collected, wins; winning is terminal for the session. Standing on a pickup
//! cell collects it: the cell is cleared and the live pickup counter drops by
//! exactly one, never below zero.

use vstd::prelude::*;

verus! {

use crate::FP;
use crate::camera::{Camera, spec_rot_x, spec_rot_y, spec_rotation_pair};
use crate::fixed::Vec2Fx;
use crate::grid::{
    GridMap, pickup_count, spec_pickup, spec_blocking, lemma_pickup_count_bounds,
    lemma_pickup_count_update, CELL_EMPTY, CELL_WALL, CELL_EXIT, CELL_PICKUP_A, CELL_PICKUP_B,
};
use crate::movement::{spec_cell_of, spec_moved_pos, spec_scaled, try_move, move_delta, vec_neg, right_vector};

#[derive(Clone, Copy, PartialEq, Eq, Structural, Debug)]
pub enum Phase {
    Exploring,
    Won,
}

/// What happened at the player's cell during one step: nothing, one of the
/// two pickup kinds collected, or the win transition.
#[derive(Clone, Copy, PartialEq, Eq, Structural, Debug)]
pub enum CellEvent {
    Nothing,
    PickupA,
    PickupB,
    Win,
}

/// One level session: the mutable grid, the camera, the live pickup counter
/// and the phase.
pub struct Level {
    pub map: GridMap,
    pub cam: Camera,
    pub pickups: u32,
    pub phase: Phase,
}

/// The event produced by stepping the state machine at the player's cell.
pub open spec fn spec_step_event(l: Level) -> CellEvent {
    let cx = spec_cell_of(l.cam.pos.x as int);
    let cy = spec_cell_of(l.cam.pos.y as int);
    if l.phase == Phase::Won {
        CellEvent::Nothing
    } else if l.map.in_bounds(cx, cy) && l.map.spec_cell(cx, cy) == CELL_PICKUP_A {
        CellEvent::PickupA
    } else if l.map.in_bounds(cx, cy) && l.map.spec_cell(cx, cy) == CELL_PICKUP_B {
        CellEvent::PickupB
    } else if l.map.in_bounds(cx, cy) && l.map.spec_cell(cx, cy) == CELL_EXIT && l.pickups == 0 {
        CellEvent::Win
    } else {
        CellEvent::Nothing
    }
}

/// The phase after stepping the state machine at the player's cell.
pub open spec fn spec_step_phase(l: Level) -> Phase {
    if spec_step_event(l) == CellEvent::Win {
        Phase::Won
    } else {
        l.phase
    }
}

impl Level {
    /// A valid session: valid map and camera, and a pickup counter that
    /// equals the number of pickup cells still on the map.
    pub open spec fn wf(self) -> bool {
        &&& self.map.wf()
        &&& self.cam.wf()
        &&& self.pickups as int == pickup_count(self.map.cells@)
    }

    /// Steps the state machine at the cell the player occupies: collects a
    /// pickup, or fires the win transition on the unlocked exit. Winning is
    /// terminal: a won level never changes again and emits no event.
    pub fn step_at_current_cell(&mut self) -> (ev: CellEvent)
        requires
            old(self).wf(),
        ensures
            final(self).wf(),
            final(self).cam == old(self).cam,
            final(self).map.width == old(self).map.width,
            final(self).map.height == old(self).map.height,
            ev == spec_step_event(*old(self)),
            final(self).phase == spec_step_phase(*old(self)),
            ({
                let l = *old(self);
                let cx = spec_cell_of(l.cam.pos.x as int);
                let cy = spec_cell_of(l.cam.pos.y as int);
                match ev {
                    CellEvent::Nothing => final(self).map.cells@ == l.map.cells@
                        && final(self).pickups == l.pickups && final(self).phase == l.phase,
                    CellEvent::PickupA | CellEvent::PickupB => final(self).map.cells@
                        == l.map.cells@.update(cy * l.map.width + cx, CELL_EMPTY)
                        && final(self).pickups + 1 == l.pickups && final(self).phase == l.phase,
                    CellEvent::Win => final(self).map.cells@ == l.map.cells@ && final(self).pickups
                        == l.pickups && final(self).phase == Phase::Won,
                }
            }),
    {
        if matches!(self.phase, Phase::Won) {
            return CellEvent::Nothing;
        }
        let cx: i64 = crate::fixed::fdiv(self.cam.pos.x, FP);
        let cy: i64 = crate::fixed::fdiv(self.cam.pos.y, FP);
        if cx >= 0 && cx < self.map.width as i64 && cy >= 0 && cy < self.map.height as i64 {
            proof {
                assert(cy * self.map.width + cx < self.map.width * self.map.height <= 4096)
                    by (nonlinear_arith)
                    requires
                        0 <= cx < self.map.width,
                        0 <= cy < self.map.height,
                        self.map.width <= 64,
                        self.map.height <= 64,
                ;
            }
            let idx: usize = (cy as usize) * self.map.width + (cx as usize);
            let cell = self.map.cells[idx];
            if cell == CELL_PICKUP_A || cell == CELL_PICKUP_B {
                proof {
                    lemma_pickup_count_update(self.map.cells@, idx as int, CELL_EMPTY);
                    lemma_pickup_count_bounds(self.map.cells@.update(idx as int, CELL_EMPTY));
                }
                self.map.cells.set(idx, CELL_EMPTY);
                self.pickups = self.pickups - 1;
                if cell == CELL_PICKUP_A {
                    return CellEvent::PickupA;
                }
                return CellEvent::PickupB;
            }
            if cell == CELL_EXIT && self.pickups == 0 {
                self.phase = Phase::Won;
                return CellEvent::Win;
            }
        }
        CellEvent::Nothing
    }
}

/// The per-frame inputs the host hands to the level: an optional rotation,
/// given as the scaled cosine and sine of the turn angle, the four movement
/// keys, and the frame's movement step length in `FP` units.
pub struct FrameInput {
    pub rotation: Option<(i64, i64)>,
    pub forward: bool,
    pub backward: bool,
    pub left: bool,
    pub right: bool,
    pub step: i64,
}

/// The camera direction after the optional rotation of a frame.
pub open spec fn spec_frame_dir(cam: Camera, rotation: Option<(i64, i64)>) -> Vec2Fx {
    match rotation {
        Some(p) => Vec2Fx {
            x: spec_rot_x(cam.dir, p.0 as int, p.1 as int) as i64,
            y: spec_rot_y(cam.dir, p.0 as int, p.1 as int) as i64,
        },
        None => cam.dir,
    }
}

/// The projection plane after the optional rotation of a frame.
pub open spec fn spec_frame_plane(cam: Camera, rotation: Option<(i64, i64)>) -> Vec2Fx {
    match rotation {
        Some(p) => Vec2Fx {
            x: spec_rot_x(cam.plane, p.0 as int, p.1 as int) as i64,
            y: spec_rot_y(cam.plane, p.0 as int, p.1 as int) as i64,
        },
        None => cam.plane,
    }
}

/// The camera position after the four movement attempts of one frame, in
/// key order (forward, back, strafe left, strafe right), each revalidated
/// against the position the previous attempt reached.
pub open spec fn spec_frame_pos(
    map: GridMap,
    pos0: Vec2Fx,
    dir: Vec2Fx,
    input: FrameInput,
    pickups: u32,
) -> Vec2Fx {
    let step = input.step as int;
    let fwd = Vec2Fx {
        x: spec_scaled(dir.x as int, step) as i64,
        y: spec_scaled(dir.y as int, step) as i64,
    };
    let bwd = Vec2Fx {
        x: spec_scaled(-dir.x as int, step) as i64,
        y: spec_scaled(-dir.y as int, step) as i64,
    };
    let lft = Vec2Fx {
        x: spec_scaled(dir.y as int, step) as i64,
        y: spec_scaled(-dir.x as int, step) as i64,
    };
    let rgt = Vec2Fx {
        x: spec_scaled(-dir.y as int, step) as i64,
        y: spec_scaled(dir.x as int, step) as i64,
    };
    let p1 = if input.forward {
        spec_moved_pos(map, pos0, fwd, pickups)
    } else {
        pos0
    };
    let p2 = if input.backward {
        spec_moved_pos(map, p1, bwd, pickups)
    } else {
        p1
    };
    let p3 = if input.left {
        spec_moved_pos(map, p2, lft, pickups)
    } else {
        p2
    };
    if input.right {
        spec_moved_pos(map, p3, rgt, pickups)
    } else {
        p3
    }
}

/// The whole camera after the rotation and movement of one frame.
pub open spec fn spec_frame_cam(l: Level, input: FrameInput) -> Camera {
    let dir = spec_frame_dir(l.cam, input.rotation);
    Camera {
        pos: spec_frame_pos(l.map, l.cam.pos, dir, input, l.pickups),
        dir,
        plane: spec_frame_plane(l.cam, input.rotation),
    }
}

impl Level {
    /// Advances one frame of the session: while exploring, applies the
    /// rotation, then tries the four movement keys in order (forward, back,
    /// strafe left, strafe right), each as its own collision-checked
    /// combined step revalidated against current state, and finally steps
    /// the pickup/win machine at the reached cell. A won level ignores all
    /// input and never changes again.
    pub fn frame_update(&mut self, input: FrameInput) -> (ev: CellEvent)
        requires
            old(self).wf(),
            input.rotation matches Some(p) ==> spec_rotation_pair(p.0 as int, p.1 as int),
            0 <= input.step <= 2 * FP,
        ensures
            final(self).wf(),
            final(self).map.width == old(self).map.width,
            final(self).map.height == old(self).map.height,
            old(self).phase == Phase::Won ==> *final(self) == *old(self) && ev
                == CellEvent::Nothing,
            (ev == CellEvent::Win) <==> (old(self).phase == Phase::Exploring && final(self).phase
                == Phase::Won),
            (ev == CellEvent::PickupA || ev == CellEvent::PickupB) ==> final(self).pickups + 1
                == old(self).pickups,
            (ev == CellEvent::Nothing || ev == CellEvent::Win) ==> final(self).pickups == old(self).pickups,
            final(self).map.cells@.len() == old(self).map.cells@.len(),
            forall|i: int|
                0 <= i < final(self).map.cells@.len() && final(self).map.cells@[i] != old(self).map.cells@[i] ==> spec_pickup(old(self).map.cells@[i]) && final(self).map.cells@[i] == CELL_EMPTY,
            old(self).phase == Phase::Exploring ==> (input.rotation matches Some(p) ==> {
                &&& final(self).cam.dir.x == spec_rot_x(old(self).cam.dir, p.0 as int, p.1 as int)
                &&& final(self).cam.dir.y == spec_rot_y(old(self).cam.dir, p.0 as int, p.1 as int)
                &&& final(self).cam.plane.x == spec_rot_x(
                    old(self).cam.plane,
                    p.0 as int,
                    p.1 as int,
                )
                &&& final(self).cam.plane.y == spec_rot_y(
                    old(self).cam.plane,
                    p.0 as int,
                    p.1 as int,
                )
            }),
            (old(self).phase == Phase::Won || input.rotation is None) ==> final(self).cam.dir
                == old(self).cam.dir && final(self).cam.plane == old(self).cam.plane,
            final(self).cam.pos != old(self).cam.pos ==> {
                let cx = spec_cell_of(final(self).cam.pos.x as int);
                let cy = spec_cell_of(final(self).cam.pos.y as int);
                &&& final(self).map.in_bounds(cx, cy)
                &&& final(self).map.spec_cell(cx, cy) != CELL_WALL
                &&& (final(self).map.spec_cell(cx, cy) == CELL_EXIT ==> final(self).pickups == 0)
            },
            !input.forward && !input.backward && !input.left && !input.right ==> final(self).cam.pos == old(self).cam.pos,
            old(self).phase == Phase::Exploring ==> final(self).cam == spec_frame_cam(
                *old(self),
                input,
            ),
            old(self).phase == Phase::Exploring ==> ev == spec_step_event(
                Level {
                    map: old(self).map,
                    cam: spec_frame_cam(*old(self), input),
                    pickups: old(self).pickups,
                    phase: Phase::Exploring,
                },
            ),
            (0 <= old(self).cam.pos.x < old(self).map.width * FP && 0 <= old(self).cam.pos.y < old(self).map.height * FP) ==> (0 <= final(self).cam.pos.x < final(self).map.width * FP && 0
                <= final(self).cam.pos.y < final(self).map.height * FP),
    {
        if matches!(self.phase, Phase::Won) {
            return CellEvent::Nothing;
        }
        if let Some((c, s)) = input.rotation {
            self.cam.rotate(c, s);
        }
        let step = input.step;
        if input.forward {
            let d = move_delta(self.cam.dir, step);
            try_move(&mut self.cam, d, &self.map, self.pickups);
        }
        if input.backward {
            let nd = vec_neg(self.cam.dir);
            let d = move_delta(nd, step);
            try_move(&mut self.cam, d, &self.map, self.pickups);
        }
        if input.left {
            let rv = right_vector(self.cam.dir);
            let nr = vec_neg(rv);
            let d = move_delta(nr, step);
            try_move(&mut self.cam, d, &self.map, self.pickups);
        }
        if input.right {
            let rv = right_vector(self.cam.dir);
            let d = move_delta(rv, step);
            try_move(&mut self.cam, d, &self.map, self.pickups);
        }
        let ghost mid = *self;
        let ev = self.step_at_current_cell();
        proof {
            let cx = spec_cell_of(mid.cam.pos.x as int);
            let cy = spec_cell_of(mid.cam.pos.y as int);
            let idx = cy * mid.map.width + cx;
            if ev == CellEvent::PickupA || ev == CellEvent::PickupB {
                assert(mid.map.in_bounds(cx, cy));
                assert(0 <= cy * mid.map.width + cx < mid.map.width * mid.map.height)
                    by (nonlinear_arith)
                    requires
                        0 <= cx < mid.map.width,
                        0 <= cy < mid.map.height,
                ;
                assert(0 <= idx < mid.map.cells@.len());
                assert(self.map.cells@ == mid.map.cells@.update(idx, CELL_EMPTY));
                assert(self.map.cells@[idx] == CELL_EMPTY);
                assert(forall|i: int|
                    0 <= i < self.map.cells@.len() && i != idx ==> self.map.cells@[i]
                        == mid.map.cells@[i]);
            }
            if self.cam.pos != old(self).cam.pos {
                assert(mid.map.in_bounds(cx, cy) && !spec_blocking(
                    mid.map.spec_cell(cx, cy),
                    mid.pickups,
                ));
            }
        }
        ev
    }
}

/// Law: on a valid level whose occupied cell holds a pickup, the live
/// counter is at least one, so collecting decrements it to an exact,
/// never-negative value.
pub proof fn lemma_pickup_counter_positive(l: Level)
    requires
        l.wf(),
        spec_step_event(l) == CellEvent::PickupA || spec_step_event(l) == CellEvent::PickupB,
    ensures
        l.pickups >= 1,
{
    let cx = spec_cell_of(l.cam.pos.x as int);
    let cy = spec_cell_of(l.cam.pos.y as int);
    let idx = cy * l.map.width + cx;
    assert(0 <= cy * l.map.width + cx < l.map.width * l.map.height) by (nonlinear_arith)
        requires
            0 <= cx < l.map.width,
            0 <= cy < l.map.height,
    ;
    assert(0 <= idx < l.map.cells@.len());
    lemma_pickup_count_update(l.map.cells@, idx, CELL_EMPTY);
    lemma_pickup_count_bounds(l.map.cells@.update(idx, CELL_EMPTY));
}

/// Law: the win transition fires exactly when the player occupies the exit
/// cell with no pickups remaining while still exploring, and it fires at
/// most once per session: a won level steps without an event, so no second
/// win can ever be emitted.
pub proof fn lemma_win_fires_once(l: Level)
    ensures
        spec_step_event(l) == CellEvent::Win <==> (l.phase == Phase::Exploring && l.map.in_bounds(
            spec_cell_of(l.cam.pos.x as int),
            spec_cell_of(l.cam.pos.y as int),
        ) && l.map.spec_cell(spec_cell_of(l.cam.pos.x as int), spec_cell_of(l.cam.pos.y as int))
            == CELL_EXIT && l.pickups == 0),
        spec_step_event(l) == CellEvent::Win ==> spec_step_phase(l) == Phase::Won,
        l.phase == Phase::Won ==> spec_step_event(l) == CellEvent::Nothing && spec_step_phase(l)
            == Phase::Won,
{
}

} // verus!
