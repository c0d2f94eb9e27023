//! One whole frame of the level, rendered in order: the wall pass builds the
//! z-buffer, the sprite pass is depth-tested against that same buffer, and
//! the minimap is projected from the same state, so the passes can never
//! disagree about the frame they describe.

use vstd::prelude::*;

verus! {

use crate::FP;
use crate::fixed::DIST_INF;
use crate::game::Level;
use crate::minimap::{minimap_colors, minimap_player, spec_mini_color, MiniColor, MINIMAP_SCALE};
use crate::scene::{render_walls, spec_column_ok, ColumnHit, MAX_SCREEN};
use crate::sprite::{spec_sprite_shown, spec_sprite_view_ok, visible_sprites, SpriteView};

/// Everything drawn for one frame: the wall slices and z-buffer per screen
/// column, the sprites that survived the depth test, the minimap cell colors
/// and the player marker (disc center and heading segment end).
pub struct FrameRender {
    pub columns: Vec<Option<ColumnHit>>,
    pub zbuf: Vec<i64>,
    pub sprites: Vec<SpriteView>,
    pub minimap: Vec<MiniColor>,
    pub player: (i64, i64, i64, i64),
}

/// Renders one frame of the level: walls with their z-buffer, sprites
/// depth-tested against it, and the minimap. Every drawn sprite is a pickup
/// or the unlocked exit and lies strictly nearer than the wall in its
/// column; a locked exit shows up only as a wall and a locked minimap cell.
pub fn render_frame(
    level: &Level,
    screen_w: usize,
    screen_h: usize,
    spawn: (i64, i64),
    coin: Option<(i64, i64)>,
    exit_ref: Option<(i64, i64)>,
    sin_exit: i64,
    sin_coin: i64,
) -> (r: FrameRender)
    requires
        level.wf(),
        0 <= level.cam.pos.x < level.map.width * FP,
        0 <= level.cam.pos.y < level.map.height * FP,
        1 <= screen_w <= MAX_SCREEN,
        1 <= screen_h <= MAX_SCREEN,
        -1000 <= spawn.0 <= 1000 && -1000 <= spawn.1 <= 1000,
        coin matches Some(p) ==> -1000 <= p.0 <= 1000 && -1000 <= p.1 <= 1000,
        exit_ref matches Some(p) ==> -1000 <= p.0 <= 1000 && -1000 <= p.1 <= 1000,
        -FP <= sin_exit <= FP,
        -FP <= sin_coin <= FP,
    ensures
        r.columns@.len() == screen_w,
        r.zbuf@.len() == screen_w,
        forall|i: int| 0 <= i < screen_w ==> 0 < #[trigger] r.zbuf@[i] <= DIST_INF,
        forall|i: int|
            0 <= i < screen_w ==> #[trigger] spec_column_ok(
                level.map,
                level.cam,
                level.pickups,
                screen_w as int,
                screen_h as int,
                spawn,
                coin,
                exit_ref,
                i,
                r.columns@[i],
                r.zbuf@[i],
            ),
        forall|k: int|
            0 <= k < r.sprites@.len() ==> spec_sprite_view_ok(
                level.map,
                level.cam,
                level.pickups,
                r.zbuf@,
                screen_h as int,
                sin_exit as int,
                sin_coin as int,
                #[trigger] r.sprites@[k],
            ),
        forall|x: int, y: int|
            #[trigger] spec_sprite_shown(level.map, level.cam, level.pickups, r.zbuf@, x, y)
                ==> exists|k: int|
                0 <= k < r.sprites@.len() && (#[trigger] r.sprites@[k]).cell_x == x
                    && r.sprites@[k].cell_y == y,
        r.minimap@.len() == level.map.cells@.len(),
        forall|i: int|
            0 <= i < r.minimap@.len() ==> r.minimap@[i] == spec_mini_color(
                level.map.cells@[i],
                level.pickups,
            ),
        r.player.0 == (level.cam.pos.x * MINIMAP_SCALE) / (FP as int),
        r.player.1 == (level.cam.pos.y * MINIMAP_SCALE) / (FP as int),
        r.player.2 == r.player.0 + (level.cam.dir.x * (MINIMAP_SCALE * 12)) / (10 * FP as int),
        r.player.3 == r.player.1 + (level.cam.dir.y * (MINIMAP_SCALE * 12)) / (10 * FP as int),
{
    let (columns, zbuf) = render_walls(
        &level.map,
        &level.cam,
        level.pickups,
        screen_w,
        screen_h,
        spawn,
        coin,
        exit_ref,
    );
    let sprites = visible_sprites(
        &level.map,
        &level.cam,
        level.pickups,
        &zbuf,
        screen_h,
        sin_exit,
        sin_coin,
    );
    let minimap = minimap_colors(&level.map, level.pickups);
    let player = minimap_player(&level.cam);
    let fr = FrameRender { columns, zbuf, sprites, minimap, player };
    proof {
        assert forall|x: int, y: int|
            #[trigger] spec_sprite_shown(
                level.map,
                level.cam,
                level.pickups,
                fr.zbuf@,
                x,
                y,
            ) implies exists|k: int|
            0 <= k < fr.sprites@.len() && (#[trigger] fr.sprites@[k]).cell_x == x
                && fr.sprites@[k].cell_y == y by {
            let k = choose|k: int|
                0 <= k < fr.sprites@.len() && (#[trigger] fr.sprites@[k]).cell_x == x
                    && fr.sprites@[k].cell_y == y;
            assert(0 <= k < fr.sprites@.len() && fr.sprites@[k].cell_x == x && fr.sprites@[k].cell_y
                == y);
        }
    }
    fr
}

} // verus!
