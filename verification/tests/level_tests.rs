use brawl_fps::fixed::Vec2Fx;
use brawl_fps::camera::Camera;
use brawl_fps::game::{CellEvent, FrameInput, Level, Phase};
use brawl_fps::grid::{count_coins, find_first_cell, is_blocking, is_wall, GridMap};
use brawl_fps::levels::{level_map, placeholder_pixels};
use brawl_fps::minimap::{mini_color, minimap_colors, minimap_player, MiniColor};

fn frame_forward() -> FrameInput {
    FrameInput {
        rotation: None,
        forward: true,
        backward: false,
        left: false,
        right: false,
        step: 1_000_000,
    }
}

#[test]
fn level_map_shape_and_contents() {
    let m = level_map();
    assert_eq!(m.width, 16);
    assert_eq!(m.height, 12);
    assert_eq!(count_coins(&m), 2);
    assert_eq!(find_first_cell(&m, 2), Some((1, 1)));
    assert_eq!(find_first_cell(&m, 4), Some((7, 7)));
    assert_eq!(find_first_cell(&m, 3), Some((14, 2)));
    assert_eq!(find_first_cell(&m, 9), None);
}

#[test]
fn from_cells_validates() {
    assert!(GridMap::from_cells(2, 2, vec![0, 1, 2, 3]).is_some());
    assert!(GridMap::from_cells(2, 2, vec![0, 1, 2]).is_none());
    assert!(GridMap::from_cells(2, 2, vec![0, 1, 2, 5]).is_none());
    assert!(GridMap::from_cells(0, 2, vec![]).is_none());
    assert!(GridMap::from_cells(65, 1, vec![1; 65]).is_none());
}

#[test]
fn cell_queries() {
    assert!(is_wall(1));
    assert!(!is_wall(3));
    assert!(is_blocking(1, 0));
    assert!(is_blocking(3, 2));
    assert!(!is_blocking(3, 0));
    assert!(!is_blocking(0, 5));
    let m = level_map();
    assert_eq!(m.cell_at(1, 1), Some(2));
    assert_eq!(m.cell_at(16, 1), None);
    assert_eq!(m.cell_at(0, 12), None);
}

#[test]
fn collecting_pickup_decrements_and_clears() {
    let map = level_map();
    let pickups = count_coins(&map);
    let mut l = Level { map, cam: Camera::new(), pickups, phase: Phase::Exploring };
    l.cam.pos = Vec2Fx { x: 1_500_000, y: 1_500_000 };
    assert_eq!(l.step_at_current_cell(), CellEvent::PickupA);
    assert_eq!(l.pickups, 1);
    assert_eq!(l.map.cell_at(1, 1), Some(0));
    // Standing on the same, now empty, cell does nothing more.
    assert_eq!(l.step_at_current_cell(), CellEvent::Nothing);
    assert_eq!(l.pickups, 1);
}

#[test]
fn end_to_end_win_scenario() {
    let map = level_map();
    let pickups = count_coins(&map);
    let mut l = Level { map, cam: Camera::new(), pickups, phase: Phase::Exploring };
    // Spawn pose: (1.5, 10.5) facing (1, 0).
    assert_eq!(l.cam.pos, Vec2Fx { x: 1_500_000, y: 10_500_000 });
    assert_eq!(l.cam.dir, Vec2Fx { x: 1_000_000, y: 0 });
    assert_eq!(l.pickups, 2);

    // With pickups remaining, stepping into the exit cell is rejected.
    l.cam.pos = Vec2Fx { x: 14_500_000, y: 1_500_000 };
    l.cam.dir = Vec2Fx { x: 0, y: 1_000_000 };
    let ev = l.frame_update(frame_forward());
    assert_eq!(ev, CellEvent::Nothing);
    assert_eq!(l.cam.pos, Vec2Fx { x: 14_500_000, y: 1_500_000 });
    assert!(matches!(l.phase, Phase::Exploring));

    // Collect both pickups.
    l.cam.pos = Vec2Fx { x: 1_500_000, y: 1_500_000 };
    assert_eq!(l.step_at_current_cell(), CellEvent::PickupA);
    l.cam.pos = Vec2Fx { x: 7_500_000, y: 7_500_000 };
    assert_eq!(l.step_at_current_cell(), CellEvent::PickupB);
    assert_eq!(l.pickups, 0);

    // Now the exit opens: the move commits and the win fires exactly once.
    l.cam.pos = Vec2Fx { x: 14_500_000, y: 1_500_000 };
    let ev = l.frame_update(frame_forward());
    assert_eq!(ev, CellEvent::Win);
    assert_eq!(l.cam.pos, Vec2Fx { x: 14_500_000, y: 2_500_000 });
    assert!(matches!(l.phase, Phase::Won));
    let ev2 = l.frame_update(frame_forward());
    assert_eq!(ev2, CellEvent::Nothing);
    assert!(matches!(l.phase, Phase::Won));
}

#[test]
fn won_level_ignores_movement() {
    let map = level_map();
    let pickups = count_coins(&map);
    let mut l = Level { map, cam: Camera::new(), pickups, phase: Phase::Won };
    let before = l.cam.pos;
    let ev = l.frame_update(frame_forward());
    assert_eq!(ev, CellEvent::Nothing);
    assert_eq!(l.cam.pos, before);
}

#[test]
fn minimap_colors_by_cell() {
    assert_eq!(mini_color(1, 0), MiniColor::Wall);
    assert_eq!(mini_color(3, 2), MiniColor::LockedExit);
    assert_eq!(mini_color(3, 0), MiniColor::Floor);
    assert_eq!(mini_color(2, 1), MiniColor::Pickup);
    assert_eq!(mini_color(4, 1), MiniColor::Pickup);
    assert_eq!(mini_color(0, 1), MiniColor::Floor);
    let m = level_map();
    let cols = minimap_colors(&m, 2);
    assert_eq!(cols.len(), 192);
    assert_eq!(cols[0], MiniColor::Wall);
    assert_eq!(cols[16 + 1], MiniColor::Pickup);
    assert_eq!(cols[2 * 16 + 14], MiniColor::LockedExit);
    let cleared = minimap_colors(&m, 0);
    assert_eq!(cleared[2 * 16 + 14], MiniColor::Floor);
}

#[test]
fn minimap_player_marker() {
    let cam = Camera::new();
    let (px, py, lx, ly) = minimap_player(&cam);
    assert_eq!(px, 9);
    assert_eq!(py, 63);
    assert_eq!(lx, 16);
    assert_eq!(ly, 63);
}

#[test]
fn placeholder_texture_bytes() {
    let v = placeholder_pixels(10, 200, 100);
    assert_eq!(v, vec![10, 200, 100, 255, 10, 200, 100, 255, 10, 200, 100, 255, 10, 200, 100, 255]);
}

#[test]
fn combined_keys_move_axis_by_axis() {
    let map = level_map();
    let pickups = count_coins(&map);
    let mut l = Level { map, cam: Camera::new(), pickups, phase: Phase::Exploring };
    l.cam.pos = Vec2Fx { x: 10_500_000, y: 9_500_000 };
    l.cam.dir = Vec2Fx { x: 1_000_000, y: 0 };
    let ev = l.frame_update(FrameInput {
        rotation: None,
        forward: true,
        backward: false,
        left: false,
        right: true,
        step: 1_000_000,
    });
    // The forward step commits; the strafe into the wall south of the new
    // cell is rejected, leaving only the forward component.
    assert_eq!(ev, CellEvent::Nothing);
    assert_eq!(l.cam.pos, Vec2Fx { x: 11_500_000, y: 9_500_000 });
}

#[test]
fn try_move_commits_only_into_open_cells() {
    let map = level_map();
    let mut cam = Camera::new();
    // Straight into the west border wall: rejected.
    brawl_fps::movement::try_move(&mut cam, Vec2Fx { x: -1_000_000, y: 0 }, &map, 2);
    assert_eq!(cam.pos, Vec2Fx { x: 1_500_000, y: 10_500_000 });
    // A small step east within the spawn corridor: committed.
    brawl_fps::movement::try_move(&mut cam, Vec2Fx { x: 250_000, y: 0 }, &map, 2);
    assert_eq!(cam.pos, Vec2Fx { x: 1_750_000, y: 10_500_000 });
    // Out of the map entirely: rejected.
    brawl_fps::movement::try_move(&mut cam, Vec2Fx { x: -8_000_000, y: 0 }, &map, 2);
    assert_eq!(cam.pos, Vec2Fx { x: 1_750_000, y: 10_500_000 });
}

#[test]
fn movement_basis_helpers() {
    let dir = Vec2Fx { x: 1_000_000, y: 0 };
    let d = brawl_fps::movement::move_delta(dir, 125_000);
    assert_eq!(d, Vec2Fx { x: 125_000, y: 0 });
    let r = brawl_fps::movement::right_vector(dir);
    assert_eq!(r, Vec2Fx { x: 0, y: 1_000_000 });
    let n = brawl_fps::movement::vec_neg(r);
    assert_eq!(n, Vec2Fx { x: 0, y: -1_000_000 });
}
