//! Player presentation decisions: sprite facing and animation speed.
//!
//! The sprite child of the player ball keeps its own orientation state: it
//! faces the way the player last moved, and its wheel animation plays at a
//! speed proportional to the ball's angular velocity.

use vstd::prelude::*;

verus! {

/// Which way the hamster sprite faces.
#[derive(Clone, Copy, Debug, PartialEq, Eq, Structural)]
pub enum Facing {
    Left,
    Right,
}

/// Sprite offset of the hamster child under the player ball (thousandths).
pub const HAMSTER_OFFSET_X: i64 = 0;

/// Sprite offset of the hamster child under the player ball (thousandths).
pub const HAMSTER_OFFSET_Y: i64 = -10_000;

/// Sprite offset of the hamster child under the player ball (thousandths).
pub const HAMSTER_OFFSET_Z: i64 = -1000;

/// The facing after one orientation update: rightward movement faces right,
/// leftward faces left, and idle keeps the last facing.
pub open spec fn facing_after(movement_x: int, last: Facing) -> Facing {
    if movement_x > 0 {
        Facing::Right
    } else if movement_x < 0 {
        Facing::Left
    } else {
        last
    }
}

/// Decide the hamster sprite's facing from the current horizontal movement
/// intent, remembering the previous facing across idle frames.
pub fn update_hamster_orientation(movement_x: i64, last: Facing) -> (f: Facing)
    ensures
        f == facing_after(movement_x as int, last),
{
    if movement_x > 0 {
        Facing::Right
    } else if movement_x < 0 {
        Facing::Left
    } else {
        last
    }
}

/// The wheel animation speed: half the magnitude of the ball's angular
/// velocity (both in thousandths), rounding down.
pub fn control_hamster_animation_speed(angvel: i64) -> (r: i64)
    requires
        angvel > i64::MIN,
    ensures
        r == (if angvel >= 0 {
            angvel as int
        } else {
            -angvel as int
        }) / 2,
        r >= 0,
{
    let m: i64 = if angvel < 0 {
        -angvel
    } else {
        angvel
    };
    ((m as u64) / 2) as i64
}

} // verus!
