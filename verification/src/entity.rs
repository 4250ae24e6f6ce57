use vstd::prelude::*;

verus! {

/// Sub-units of one world unit: positions are kept in millionths of a unit,
/// so that one millisecond of travel at any speed is an exact integer step.
pub const POS_SCALE: i64 = 1000000;

/// Length of a unit direction vector, in thousandths.
pub const VEL_UNIT: i64 = 1000;

/// Component of a unit diagonal, in thousandths: the nearest integer to
/// `VEL_UNIT / sqrt(2)`, so a diagonal direction has the same length as an
/// axis-aligned one up to the scale's precision.
pub const VEL_DIAG: i64 = 707;

/// Player speed in world units per second.
pub const PLAYER_SPEED: i64 = 250;

/// Enemy speed in world units per second.
pub const ENEMY_SPEED: i64 = 200;

/// Projectile speed in world units per second.
pub const PROJECTILE_SPEED: i64 = 400;

/// Player square edge length in world units.
pub const PLAYER_SIZE: i64 = 60;

/// Enemy square edge length in world units.
pub const ENEMY_SIZE: i64 = 30;

/// Projectile square edge length in world units.
pub const PROJECTILE_SIZE: i64 = 25;

/// Largest speed any entity may carry, in world units per second.
pub const MAX_SPEED: i64 = 400;

/// Largest square edge length any entity may carry, in world units.
pub const MAX_SIZE: i64 = 1000;

/// Largest coordinate magnitude an entity may hold at a frame boundary,
/// in sub-units. Entities are free to drift far off screen; this cap only
/// keeps every position update inside `i64` range.
pub const POS_LIMIT: i64 = 1000000000000000;

/// Largest coordinate magnitude an entity may hold when the move phase
/// begins: `POS_LIMIT` plus the largest spawn offset
/// (`MAX_SIZE * POS_SCALE / 3`, rounded up to a round number).
pub const PRE_MOVE_LIMIT: i64 = 1000001000000000;

/// Largest coordinate magnitude reachable in mid-frame: `PRE_MOVE_LIMIT`
/// plus one maximal integration step (`VEL_UNIT * MAX_SPEED * MAX_DT_MS`),
/// rounded up to a round number.
pub const POS_ROOM: i64 = 1001000000000000;

/// Largest frame delta accepted, in milliseconds.
pub const MAX_DT_MS: i64 = 1000000;

/// A two-dimensional point or direction. Points are in sub-units
/// (`POS_SCALE` per world unit, origin top-left, y growing downward);
/// directions are in thousandths (`VEL_UNIT` for unit length).
#[derive(Clone, Copy, PartialEq, Eq, Structural, Debug)]
pub struct Vec2i {
    pub x: i64,
    pub y: i64,
}

/// Display color of an entity; it has no effect on the simulation.
#[derive(Clone, Copy, PartialEq, Eq, Structural, Debug)]
pub enum GameColor {
    Green,
    Yellow,
}

/// One moving square: the player, an enemy, or a projectile. The role is
/// fixed at construction time by the spawning function alone; the
/// simulation tells roles apart only by which collection holds the entity.
#[derive(Clone, Copy, PartialEq, Eq, Structural, Debug)]
pub struct Rectangle {
    /// Top-left corner, in sub-units.
    pub pos: Vec2i,
    /// Direction of travel, in thousandths of a unit vector.
    pub velocity: Vec2i,
    /// Display color.
    pub color: GameColor,
    /// Travel speed, in world units per second.
    pub speed: i64,
    /// Edge length of the square, in world units; also the collision radius.
    pub size: i64,
    /// Set when the entity is to be removed by the next cleanup pass.
    pub destroy: bool,
}

impl Rectangle {
    /// The velocity, speed and size fields are within the model's ranges.
    pub open spec fn motion_ok(self) -> bool {
        &&& -VEL_UNIT <= self.velocity.x <= VEL_UNIT
        &&& -VEL_UNIT <= self.velocity.y <= VEL_UNIT
        &&& 0 <= self.speed <= MAX_SPEED
        &&& 0 < self.size <= MAX_SIZE
    }

    /// The position is within the frame-boundary coordinate cap.
    pub open spec fn pos_ok(self) -> bool {
        &&& -POS_LIMIT <= self.pos.x <= POS_LIMIT
        &&& -POS_LIMIT <= self.pos.y <= POS_LIMIT
    }

    /// The position is within the cap that holds when the move phase
    /// begins: a `pos_ok` position, possibly displaced by a spawn offset.
    pub open spec fn pos_pre_move(self) -> bool {
        &&& -PRE_MOVE_LIMIT <= self.pos.x <= PRE_MOVE_LIMIT
        &&& -PRE_MOVE_LIMIT <= self.pos.y <= PRE_MOVE_LIMIT
    }

    /// The position is within the cap reachable in mid-frame, after one
    /// integration step from a `pos_pre_move` position.
    pub open spec fn pos_roomy(self) -> bool {
        &&& -POS_ROOM <= self.pos.x <= POS_ROOM
        &&& -POS_ROOM <= self.pos.y <= POS_ROOM
    }

    /// A well-formed entity at a frame boundary.
    pub open spec fn wf(self) -> bool {
        self.motion_ok() && self.pos_ok()
    }

    /// The entity after one integration step of `dt` milliseconds:
    /// the position advances by exactly `velocity * speed * dt`, which is in
    /// sub-units because of the three scales involved; nothing else changes.
    pub open spec fn spec_moved(self, dt: int) -> Rectangle {
        Rectangle {
            pos: Vec2i {
                x: (self.pos.x + self.velocity.x * self.speed * dt) as i64,
                y: (self.pos.y + self.velocity.y * self.speed * dt) as i64,
            },
            ..self
        }
    }

    /// Advance the position by `velocity * speed * dt_ms`, exactly.
    pub fn move_rectangle(&mut self, dt_ms: i64)
        requires
            old(self).motion_ok(),
            old(self).pos_pre_move(),
            0 <= dt_ms <= MAX_DT_MS,
        ensures
            *final(self) == old(self).spec_moved(dt_ms as int),
            final(self).pos.x == old(self).pos.x + old(self).velocity.x * old(self).speed * dt_ms,
            final(self).pos.y == old(self).pos.y + old(self).velocity.y * old(self).speed * dt_ms,
            final(self).pos_roomy(),
    {
        proof {
            lemma_step_bounded(self.velocity.x as int, self.speed as int, dt_ms as int);
            lemma_step_bounded(self.velocity.y as int, self.speed as int, dt_ms as int);
        }
        let step_x: i64 = self.velocity.x * self.speed * dt_ms;
        let step_y: i64 = self.velocity.y * self.speed * dt_ms;
        self.pos.x = self.pos.x + step_x;
        self.pos.y = self.pos.y + step_y;
    }
}

/// One integration step is at most `VEL_UNIT * MAX_SPEED * MAX_DT_MS`
/// sub-units in magnitude.
pub proof fn lemma_step_bounded(v: int, s: int, dt: int)
    requires
        -VEL_UNIT <= v <= VEL_UNIT,
        0 <= s <= MAX_SPEED,
        0 <= dt <= MAX_DT_MS,
    ensures
        -400000 <= v * s <= 400000,
        -400000000000 <= v * s * dt <= 400000000000,
{
    assert(-400000 <= v * s <= 400000) by (nonlinear_arith)
        requires
            -1000 <= v <= 1000,
            0 <= s <= 400,
    ;
    assert(-400000000000 <= (v * s) * dt <= 400000000000) by (nonlinear_arith)
        requires
            -400000 <= v * s <= 400000,
            0 <= dt <= 1000000,
    ;
}

} // verus!
