use crate::entity::GameColor;
use crate::entity::Rectangle;
use crate::entity::Vec2i;
use crate::entity::ENEMY_SIZE;
use crate::entity::ENEMY_SPEED;
use crate::entity::PLAYER_SIZE;
use crate::entity::PLAYER_SPEED;
use crate::entity::POS_LIMIT;
use crate::entity::POS_SCALE;
use crate::entity::PROJECTILE_SIZE;
use crate::entity::PROJECTILE_SPEED;
use crate::entity::VEL_UNIT;
use vstd::prelude::*;

verus! {

/// Relies on rand::random_range: a value uniformly drawn from the given
/// range, always within it; it panics only on an empty range, which
/// `1 <= limit` rules out.
#[verifier::external_body]
pub(crate) fn random_in_range(limit: i64) -> (r: i64)
    requires
        1 <= limit,
    ensures
        0 <= r < limit,
{
    rand::random_range(0..limit)
}

/// The player's starting entity for a screen of `w` by `h` sub-units:
/// horizontally centered up to half its edge, 100 world units above the
/// bottom edge, at rest.
pub open spec fn spec_player_start(w: i64, h: i64) -> Rectangle {
    Rectangle {
        pos: Vec2i { x: (w / 2 - 30 * POS_SCALE) as i64, y: (h - 100 * POS_SCALE) as i64 },
        velocity: Vec2i { x: 0, y: 0 },
        color: GameColor::Green,
        speed: PLAYER_SPEED,
        size: PLAYER_SIZE,
        destroy: false,
    }
}

/// A fresh enemy at horizontal position `x` on the top edge, moving
/// straight down.
pub open spec fn spec_enemy_at(x: i64) -> Rectangle {
    Rectangle {
        pos: Vec2i { x, y: 0 },
        velocity: Vec2i { x: 0, y: VEL_UNIT },
        color: GameColor::Green,
        speed: ENEMY_SPEED,
        size: ENEMY_SIZE,
        destroy: false,
    }
}

/// A fresh projectile anchored to `player`: offset from the player's corner
/// by a third of the player's edge on both axes (a scalar added to both
/// coordinates, not a centering), moving straight up.
pub open spec fn spec_projectile_from(player: Rectangle) -> Rectangle {
    Rectangle {
        pos: Vec2i {
            x: (player.pos.x + player.size * POS_SCALE / 3) as i64,
            y: (player.pos.y + player.size * POS_SCALE / 3) as i64,
        },
        velocity: Vec2i { x: 0, y: (-VEL_UNIT) as i64 },
        color: GameColor::Yellow,
        speed: PROJECTILE_SPEED,
        size: PROJECTILE_SIZE,
        destroy: false,
    }
}

/// Build the player for a screen of `w` by `h` sub-units.
pub fn setup_player(screen_width: i64, screen_height: i64) -> (r: Rectangle)
    requires
        0 <= screen_width <= POS_LIMIT,
        0 <= screen_height <= POS_LIMIT,
    ensures
        r == spec_player_start(screen_width, screen_height),
        r.wf(),
        !r.destroy,
{
    Rectangle {
        pos: Vec2i {
            x: screen_width / 2 - 30 * POS_SCALE,
            y: screen_height - 100 * POS_SCALE,
        },
        velocity: Vec2i { x: 0, y: 0 },
        color: GameColor::Green,
        speed: PLAYER_SPEED,
        size: PLAYER_SIZE,
        destroy: false,
    }
}

/// Build an enemy at the given horizontal position on the top edge.
pub fn enemy_at(x: i64) -> (r: Rectangle)
    requires
        0 <= x <= POS_LIMIT,
    ensures
        r == spec_enemy_at(x),
        r.wf(),
        !r.destroy,
{
    Rectangle {
        pos: Vec2i { x, y: 0 },
        velocity: Vec2i { x: 0, y: VEL_UNIT },
        color: GameColor::Green,
        speed: ENEMY_SPEED,
        size: ENEMY_SIZE,
        destroy: false,
    }
}

/// Build an enemy at a random horizontal position on the top edge, drawn
/// uniformly over the screen width.
pub fn setup_enemy(screen_width: i64) -> (r: Rectangle)
    requires
        1 <= screen_width <= POS_LIMIT,
    ensures
        exists|x: i64| 0 <= x < screen_width && r == spec_enemy_at(x),
        r.wf(),
        !r.destroy,
{
    let x = random_in_range(screen_width);
    enemy_at(x)
}

/// Build a projectile anchored to the player's current position.
pub fn spawn_projectile(player_rect: &Rectangle) -> (r: Rectangle)
    requires
        player_rect.motion_ok(),
        player_rect.pos_ok(),
    ensures
        r == spec_projectile_from(*player_rect),
        r.motion_ok(),
        r.pos_pre_move(),
        !r.destroy,
{
    let offset: i64 = player_rect.size * POS_SCALE / 3;
    Rectangle {
        pos: Vec2i { x: player_rect.pos.x + offset, y: player_rect.pos.y + offset },
        velocity: Vec2i { x: 0, y: 0 - VEL_UNIT },
        color: GameColor::Yellow,
        speed: PROJECTILE_SPEED,
        size: PROJECTILE_SIZE,
        destroy: false,
    }
}

} // verus!
