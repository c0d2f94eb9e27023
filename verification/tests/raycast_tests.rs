use brawl_fps::camera::Camera;
use brawl_fps::fixed::{Vec2Fx, DIST_INF};
use brawl_fps::grid::GridMap;
use brawl_fps::levels::level_map;
use brawl_fps::raycast::cast_ray;
use brawl_fps::scene::{pick_texture, render_walls, WallTexture};

fn corridor() -> GridMap {
    // A 4 x 3 box: one open row between solid walls.
    GridMap::from_cells(4, 3, vec![
        1, 1, 1, 1,
        1, 0, 0, 1,
        1, 1, 1, 1,
    ])
    .unwrap()
}

#[test]
fn straight_ray_perpendicular_distance_is_exact() {
    let map = corridor();
    let pos = Vec2Fx { x: 1_500_000, y: 1_500_000 };
    // A ray exactly along the direction vector (offset 0), facing +x: the
    // wall at x = 3 is 1.5 grid units away.
    let hit = cast_ray(&map, pos, Vec2Fx { x: 1_000_000, y: 0 }, 0).unwrap();
    assert_eq!(hit.cell_x, 3);
    assert_eq!(hit.cell_y, 1);
    assert_eq!(hit.side, 0);
    assert_eq!(hit.cell, 1);
    assert_eq!(hit.perp, 1_500_000);
    // Facing -y: the wall at y = 0 is 0.5 grid units away.
    let up = cast_ray(&map, pos, Vec2Fx { x: 0, y: -1_000_000 }, 0).unwrap();
    assert_eq!(up.side, 1);
    assert_eq!(up.perp, 500_000);
}

#[test]
fn locked_exit_blocks_rays_until_cleared() {
    let map = GridMap::from_cells(5, 3, vec![
        1, 1, 1, 1, 1,
        1, 0, 3, 0, 1,
        1, 1, 1, 1, 1,
    ])
    .unwrap();
    let pos = Vec2Fx { x: 1_500_000, y: 1_500_000 };
    let rd = Vec2Fx { x: 1_000_000, y: 0 };
    // While pickups remain the exit cell is a wall to the ray.
    let locked = cast_ray(&map, pos, rd, 1).unwrap();
    assert_eq!((locked.cell_x, locked.cell), (2, 3));
    assert_eq!(locked.perp, 500_000);
    // Once cleared the ray passes through to the far wall.
    let open = cast_ray(&map, pos, rd, 0).unwrap();
    assert_eq!((open.cell_x, open.cell), (4, 1));
    assert_eq!(open.perp, 2_500_000);
}

#[test]
fn diagonal_ray_hits_bordered_map() {
    let map = corridor();
    let pos = Vec2Fx { x: 1_500_000, y: 1_500_000 };
    let hit = cast_ray(&map, pos, Vec2Fx { x: 700_000, y: -700_000 }, 0);
    assert!(hit.is_some());
    let h = hit.unwrap();
    assert_eq!(h.cell, 1);
    assert!(h.perp >= 0);
}

#[test]
fn wall_pass_builds_full_z_buffer() {
    let map = level_map();
    let cam = Camera::new();
    let spawn = (3, 21);
    let coin = Some((3, 3));
    let exit_ref = Some((29, 5));
    let (cols, zbuf) = render_walls(&map, &cam, 2, 100, 100, spawn, coin, exit_ref);
    assert_eq!(cols.len(), 100);
    assert_eq!(zbuf.len(), 100);
    for z in zbuf.iter() {
        assert!(*z > 0 && *z <= DIST_INF);
    }
    // The center column looks straight down the direction vector: from
    // (1.5, 10.5) facing +x the wall at (2, 10) is 0.5 units away.
    assert_eq!(zbuf[50], 500_000);
    let mid = cols[50].expect("center column must hit in a bordered map");
    assert_eq!(mid.line_h, 100 * 1_000_000 / 500_000);
    assert_eq!(mid.draw_start, 0);
    assert_eq!(mid.tex, WallTexture::Plains);
    assert!(0 <= mid.tex_x && mid.tex_x < 1_000_000);
    // Every column of a bordered map is drawn.
    for c in cols.iter() {
        assert!(c.is_some());
    }
}

#[test]
fn texture_choice_follows_nearest_reference() {
    let spawn = (3, 21);
    let coin = Some((3, 3));
    let exit_ref = Some((29, 5));
    // Near the spawn.
    assert_eq!(pick_texture(1, 2, 5, 21, spawn, coin, exit_ref), WallTexture::Plains);
    // Near the pickup.
    assert_eq!(pick_texture(1, 2, 3, 5, spawn, coin, exit_ref), WallTexture::Forest);
    // Near the exit.
    assert_eq!(pick_texture(1, 2, 27, 5, spawn, coin, exit_ref), WallTexture::Castle);
    // The locked exit cell always shows the castle, wherever it is.
    assert_eq!(pick_texture(3, 2, 3, 21, spawn, coin, exit_ref), WallTexture::Castle);
    // Once unlocked, proximity decides again.
    assert_eq!(pick_texture(3, 0, 3, 21, spawn, coin, exit_ref), WallTexture::Plains);
    // Without references the spawn wins every tie.
    assert_eq!(pick_texture(1, 2, 20, 20, spawn, None, None), WallTexture::Plains);
}

#[test]
fn rotation_keeps_basis_perpendicular() {
    let mut cam = Camera::new();
    // A quarter turn: cosine 0, sine just inside the scaled unit circle.
    cam.rotate(0, 999_998);
    assert_eq!(cam.dir, Vec2Fx { x: 0, y: 999_998 });
    assert_eq!(cam.plane, Vec2Fx { x: -659_999, y: 0 });
    let dot = cam.dir.x * cam.plane.x + cam.dir.y * cam.plane.y;
    assert_eq!(dot, 0);

    // Many small turns: the basis stays perpendicular and keeps its
    // magnitudes within rounding tolerance.
    let mut cam2 = Camera::new();
    for _ in 0..100 {
        cam2.rotate(999_997, 1_000);
    }
    let dot2 = cam2.dir.x * cam2.plane.x + cam2.dir.y * cam2.plane.y;
    assert!(dot2.abs() < 500_000_000, "dot product drifted: {}", dot2);
    let dn = cam2.dir.x * cam2.dir.x + cam2.dir.y * cam2.dir.y;
    assert!((dn - 1_000_000_000_000i64).abs() < 3_000_000_000, "norm drifted: {}", dn);
    let pn = cam2.plane.x * cam2.plane.x + cam2.plane.y * cam2.plane.y;
    assert!((pn - 435_600_000_000i64).abs() < 3_000_000_000, "plane norm drifted: {}", pn);
}

#[test]
fn ray_leaving_an_open_map_reports_no_hit() {
    // A map with no blocking cell at all: every ray runs out of the grid.
    let map = GridMap::from_cells(3, 3, vec![0; 9]).unwrap();
    let pos = Vec2Fx { x: 1_500_000, y: 1_500_000 };
    assert!(cast_ray(&map, pos, Vec2Fx { x: 1_000_000, y: 250_000 }, 0).is_none());
    assert!(cast_ray(&map, pos, Vec2Fx { x: -400_000, y: -900_000 }, 3).is_none());
}
