//! Scales and tuning constants.

use vstd::prelude::*;

verus! {

/// Nanoseconds in one second.
pub const NANOS_PER_SECOND: u64 = 1_000_000_000;

/// Speed steps in one world unit per second. A speed of one step moves a body by
/// one length step per nanosecond.
pub const SPEED_UNIT: i64 = 1_000_000;

/// The direction component `1.0`.
pub const DIRECTION_ONE: i32 = 1_000_000;

/// The roll `1.0`. A roll is a fraction of this, from zero up to but not
/// including one.
pub const ROLL_ONE: u32 = 1_000_000;

/// Length steps in one world unit: `SPEED_UNIT * NANOS_PER_SECOND`.
pub const UNIT: i128 = 1_000_000_000_000_000;

/// Edge of the player sprite, in world units.
pub const PLAYER_SIZE: u32 = 155;

/// Edge of a projectile sprite, in world units.
pub const PROJECTILE_SIZE: u32 = 65;

/// Edge of an enemy sprite, in world units.
pub const ENEMY_SIZE: u32 = 100;

/// Horizontal speed of the player, in world units per second.
pub const PLAYER_SPEED: i64 = 400;

/// Horizontal speed of an enemy whose direction is `1.0`, in world units per second.
pub const ENEMY_SPEED: i64 = 230;

/// Upward speed of a projectile, in world units per second.
pub const PROJECTILE_SPEED: i64 = 400;

/// How many enemies the opening scene holds.
pub const NUMBER_OF_ENEMIES: usize = 5;

/// Minimum time between two shots, in nanoseconds (0.6 s).
pub const COOLDOWN_NANOS: u64 = 600_000_000;

/// Time one animation frame stays on screen, in nanoseconds (0.1 s).
pub const ANIMATION_CADENCE_NANOS: u64 = 100_000_000;

/// How far above the player a projectile appears, in world units.
pub const MUZZLE_OFFSET: i128 = 45;

/// Where the player starts, in world units below the centre of the window.
pub const PLAYER_START_DEPTH: i128 = 300;

/// Draw layer of enemies, in world units along z.
pub const ENEMY_LAYER: i128 = 10;

/// First frame of the projectile animation.
pub const PROJECTILE_FIRST_FRAME: usize = 1;

/// Last frame of the projectile animation.
pub const PROJECTILE_LAST_FRAME: usize = 3;

/// The length of `n` world units, in length steps.
pub open spec fn spec_world_units(n: int) -> int {
    n * UNIT
}

/// The length of `n` world units, in length steps.
pub fn world_units(n: i64) -> (length: i128)
    ensures
        length == spec_world_units(n as int),
{
    let wide: i128 = n as i128;
    assert(-0x8000_0000_0000_0000 * 1_000_000_000_000_000 <= wide * UNIT
        <= 0x8000_0000_0000_0000 * 1_000_000_000_000_000) by (nonlinear_arith)
        requires
            -0x8000_0000_0000_0000 <= wide <= 0x8000_0000_0000_0000,
            UNIT == 1_000_000_000_000_000,
    ;
    wide * UNIT
}

/// The speed of `n` world units per second, in speed steps.
pub open spec fn spec_units_per_second(n: int) -> int {
    n * SPEED_UNIT
}

/// The speed of `n` world units per second, in speed steps.
pub fn units_per_second(n: i32) -> (speed: i64)
    ensures
        speed == spec_units_per_second(n as int),
{
    let wide: i64 = n as i64;
    assert(-0x8000_0000 * 1_000_000 <= wide * SPEED_UNIT <= 0x8000_0000 * 1_000_000)
        by (nonlinear_arith)
        requires
            -0x8000_0000 <= wide <= 0x8000_0000,
            SPEED_UNIT == 1_000_000,
    ;
    wide * SPEED_UNIT
}

/// One second of travel at one world unit per second is one world unit.
pub proof fn lemma_scales_agree()
    ensures
        SPEED_UNIT * NANOS_PER_SECOND == UNIT,
        DIRECTION_ONE == SPEED_UNIT,
{
}

} // verus!
