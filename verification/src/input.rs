use crate::entity::Vec2i;
use crate::entity::VEL_DIAG;
use crate::entity::VEL_UNIT;
use vstd::prelude::*;

verus! {

/// Snapshot of the keys the simulation reads, taken once per frame by the
/// platform: the four direction keys as held state, the fire key as a
/// fresh-press edge, and the restart key as held state.
#[derive(Clone, Copy, PartialEq, Eq, Structural, Debug)]
pub struct InputState {
    pub left: bool,
    pub right: bool,
    pub up: bool,
    pub down: bool,
    pub fire_pressed: bool,
    pub restart_held: bool,
}

/// Horizontal axis resolved from the held keys: right wins over left.
pub open spec fn spec_axis_x(input: InputState) -> int {
    if input.right {
        1
    } else if input.left {
        -1
    } else {
        0
    }
}

/// Vertical axis resolved from the held keys: up wins over down, and up is
/// negative because y grows downward.
pub open spec fn spec_axis_y(input: InputState) -> int {
    if input.up {
        -1
    } else if input.down {
        1
    } else {
        0
    }
}

/// The player direction for a key snapshot: the resolved axes scaled to a
/// unit vector in thousandths, the zero vector when no direction key is
/// held, and `VEL_DIAG` components on diagonals so that diagonal movement
/// is no faster than axis-aligned movement.
pub open spec fn spec_input_velocity(input: InputState) -> Vec2i {
    let ax = spec_axis_x(input);
    let ay = spec_axis_y(input);
    if ax != 0 && ay != 0 {
        Vec2i { x: (ax * VEL_DIAG) as i64, y: (ay * VEL_DIAG) as i64 }
    } else {
        Vec2i { x: (ax * VEL_UNIT) as i64, y: (ay * VEL_UNIT) as i64 }
    }
}

/// Squared length of a direction vector, in squared thousandths.
pub open spec fn spec_mag_sq(v: Vec2i) -> int {
    v.x * v.x + v.y * v.y
}

/// Resolve the held direction keys into the player's velocity direction.
pub fn input_velocity(input: &InputState) -> (v: Vec2i)
    ensures
        v == spec_input_velocity(*input),
{
    let mut x: i64 = 0;
    let mut y: i64 = 0;
    if input.right {
        x = 1;
    } else if input.left {
        x = -1;
    }
    if input.up {
        y = -1;
    } else if input.down {
        y = 1;
    }
    if x != 0 && y != 0 {
        Vec2i { x: x * VEL_DIAG, y: y * VEL_DIAG }
    } else {
        Vec2i { x: x * VEL_UNIT, y: y * VEL_UNIT }
    }
}

/// The resolved velocity's components never leave the unit-direction range.
pub proof fn lemma_input_velocity_bounds(input: InputState)
    ensures
        -VEL_UNIT <= spec_input_velocity(input).x <= VEL_UNIT,
        -VEL_UNIT <= spec_input_velocity(input).y <= VEL_UNIT,
{
    let ax = spec_axis_x(input);
    let ay = spec_axis_y(input);
    assert(ax == -1 || ax == 0 || ax == 1);
    assert(ay == -1 || ay == 0 || ay == 1);
}

/// Law: for every combination of held direction keys the resolved velocity
/// is a unit vector at the scale's precision — its squared length is
/// exactly `VEL_UNIT * VEL_UNIT` on an axis, `2 * VEL_DIAG * VEL_DIAG` on a
/// diagonal (0.03% short of a unit) — and it is the zero vector exactly
/// when no direction key is held.
pub proof fn lemma_input_velocity_normalized(input: InputState)
    ensures
        spec_axis_x(input) == 0 && spec_axis_y(input) == 0 ==> spec_mag_sq(
            spec_input_velocity(input),
        ) == 0,
        spec_axis_x(input) != 0 && spec_axis_y(input) == 0 ==> spec_mag_sq(
            spec_input_velocity(input),
        ) == VEL_UNIT * VEL_UNIT,
        spec_axis_x(input) == 0 && spec_axis_y(input) != 0 ==> spec_mag_sq(
            spec_input_velocity(input),
        ) == VEL_UNIT * VEL_UNIT,
        spec_axis_x(input) != 0 && spec_axis_y(input) != 0 ==> spec_mag_sq(
            spec_input_velocity(input),
        ) == 2 * VEL_DIAG * VEL_DIAG,
        999698 <= 2 * VEL_DIAG * VEL_DIAG <= VEL_UNIT * VEL_UNIT,
{
    let ax = spec_axis_x(input);
    let ay = spec_axis_y(input);
    let v = spec_input_velocity(input);
    assert(ax == -1 || ax == 0 || ax == 1);
    assert(ay == -1 || ay == 0 || ay == 1);
    if ax != 0 && ay != 0 {
        assert(v.x == -707 || v.x == 707);
        assert(v.y == -707 || v.y == 707);
        assert(spec_mag_sq(v) == 2 * 707 * 707);
    } else {
        assert(v.x == -1000 || v.x == 0 || v.x == 1000);
        assert(v.y == -1000 || v.y == 0 || v.y == 1000);
    }
}

} // verus!
