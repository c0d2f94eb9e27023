use brawl_fps::camera::Camera;
use brawl_fps::fixed::Vec2Fx;
use brawl_fps::game::{Level, Phase};
use brawl_fps::grid::{count_coins, GridMap};
use brawl_fps::levels::level_map;
use brawl_fps::minimap::MiniColor;
use brawl_fps::render::render_frame;
use brawl_fps::sprite::{sprite_visible, visible_sprites};

fn room_with(center_cell: u8) -> GridMap {
    GridMap::from_cells(5, 5, vec![
        1, 1, 1, 1, 1,
        1, 0, 0, 0, 1,
        1, 0, center_cell, 0, 1,
        1, 0, 0, 0, 1,
        1, 1, 1, 1, 1,
    ])
    .unwrap()
}

/// A camera one cell south of the room center, facing straight at it.
fn facing_camera() -> Camera {
    let mut cam = Camera::new();
    cam.pos = Vec2Fx { x: 2_500_000, y: 3_500_000 };
    cam.dir = Vec2Fx { x: 0, y: -1_000_000 };
    cam.plane = Vec2Fx { x: 660_000, y: 0 };
    cam
}

#[test]
fn occlusion_test_is_exact() {
    let zbuf: Vec<i64> = vec![100, 200, 300];
    assert!(sprite_visible(150, 2, &zbuf));
    assert!(!sprite_visible(300, 2, &zbuf));
    assert!(!sprite_visible(350, 2, &zbuf));
    assert!(!sprite_visible(50, 3, &zbuf));
    assert!(!sprite_visible(50, -1, &zbuf));
}

#[test]
fn pickup_sprite_projects_to_center_column() {
    let map = room_with(2);
    let cam = facing_camera();
    let zbuf: Vec<i64> = vec![2_000_000; 10];
    let sprites = visible_sprites(&map, &cam, 1, &zbuf, 100, 0, 0);
    assert_eq!(sprites.len(), 1);
    let s = &sprites[0];
    assert_eq!((s.cell_x, s.cell_y), (2, 2));
    assert_eq!(s.kind, 2);
    assert_eq!(s.depth, 1_000_000);
    assert_eq!(s.column, 5);
    // Projected cell height is 100 pixels at depth 1; pickups use 45%.
    assert_eq!(s.size, 45);
    assert_eq!(s.draw_x, 5 - 22);
    assert_eq!(s.dest_y, 50 - 22);
}

#[test]
fn occluded_sprite_is_not_drawn() {
    let map = room_with(2);
    let cam = facing_camera();
    // A wall nearer than the sprite in its screen column hides it.
    let near_wall: Vec<i64> = vec![500_000; 10];
    assert_eq!(visible_sprites(&map, &cam, 1, &near_wall, 100, 0, 0).len(), 0);
    // Depth exactly equal to the z-buffer entry also hides it.
    let equal_wall: Vec<i64> = vec![1_000_000; 10];
    assert_eq!(visible_sprites(&map, &cam, 1, &equal_wall, 100, 0, 0).len(), 0);
}

#[test]
fn locked_exit_is_never_a_sprite() {
    let map = room_with(3);
    let cam = facing_camera();
    let zbuf: Vec<i64> = vec![2_000_000; 10];
    // With pickups remaining, the exit renders only as a wall.
    assert_eq!(visible_sprites(&map, &cam, 1, &zbuf, 100, 0, 0).len(), 0);
    // Unlocked, it appears, larger than a pickup (85%).
    let sprites = visible_sprites(&map, &cam, 0, &zbuf, 100, 0, 0);
    assert_eq!(sprites.len(), 1);
    assert_eq!(sprites[0].kind, 3);
    assert_eq!(sprites[0].size, 85);
}

#[test]
fn sprite_behind_camera_is_discarded() {
    let map = room_with(2);
    let mut cam = facing_camera();
    // Face away from the sprite: it is behind the camera.
    cam.dir = Vec2Fx { x: 0, y: 1_000_000 };
    cam.plane = Vec2Fx { x: -660_000, y: 0 };
    let zbuf: Vec<i64> = vec![2_000_000; 10];
    assert_eq!(visible_sprites(&map, &cam, 1, &zbuf, 100, 0, 0).len(), 0);
}

#[test]
fn bob_offset_shifts_vertically() {
    let map = room_with(2);
    let cam = facing_camera();
    let zbuf: Vec<i64> = vec![2_000_000; 10];
    // A full positive sine sample moves the sprite down by its bob
    // amplitude: 6% of 45 pixels, floored.
    let sprites = visible_sprites(&map, &cam, 1, &zbuf, 100, 0, 1_000_000);
    assert_eq!(sprites.len(), 1);
    assert_eq!(sprites[0].dest_y, 50 - 22 + 2);
}

#[test]
fn whole_frame_is_consistent() {
    let map = level_map();
    let pickups = count_coins(&map);
    let mut l = Level { map, cam: Camera::new(), pickups, phase: Phase::Exploring };
    // Stand east of the second pickup, facing it.
    l.cam.pos = Vec2Fx { x: 8_500_000, y: 7_500_000 };
    l.cam.dir = Vec2Fx { x: -1_000_000, y: 0 };
    l.cam.plane = Vec2Fx { x: 0, y: -660_000 };
    let frame = render_frame(&l, 100, 100, (3, 21), Some((3, 3)), Some((29, 5)), 0, 0);
    assert_eq!(frame.columns.len(), 100);
    assert_eq!(frame.zbuf.len(), 100);
    assert_eq!(frame.minimap.len(), 192);
    assert_eq!(frame.minimap[0], MiniColor::Wall);
    // The pickup one cell ahead is visible in the center column, in front of
    // the wall two and a half units away.
    assert_eq!(frame.sprites.len(), 1);
    let s = &frame.sprites[0];
    assert_eq!((s.cell_x, s.cell_y), (7, 7));
    assert_eq!(s.kind, 4);
    assert_eq!(s.depth, 1_000_000);
    assert_eq!(s.column, 50);
    assert!(frame.zbuf[50] > s.depth);
    // Player marker: position (8.5, 7.5) at six pixels per cell.
    assert_eq!(frame.player.0, 51);
    assert_eq!(frame.player.1, 45);
}
