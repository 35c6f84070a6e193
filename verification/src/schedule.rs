//! The two entry points of the simulation.
//!
//! [`fixed_update`] advances the game by one simulation tick; [`frame_update`]
//! advances the animations by one rendered frame. The host calls each at its own
//! pace and hands in what it read from its clock, its keyboard and its window.
//!
//! No rule removes an entity, so a world only grows. A rule that retires
//! entities, such as projectiles that have left the window, would run as a last
//! step of [`fixed_update`]; the rules of motion need not know of it.

use vstd::prelude::*;
use crate::animation::after_animation;
use crate::animation::animate_sprite;
use crate::animation::animate_sprite_fits;
use crate::animation::animation_fits;
use crate::components::Entity;
use crate::enemy::after_patrol;
use crate::enemy::enemy_movement_fits;
use crate::enemy::enemy_movement_system;
use crate::enemy::patrol_fits;
use crate::input::Input;
use crate::movement::after_movement;
use crate::movement::movement_fits;
use crate::movement::player_movement_fits;
use crate::movement::player_movement_system;
use crate::projectile::after_flight;
use crate::projectile::flight_fits;
use crate::projectile::projectile_movement_fits;
use crate::projectile::projectile_movement_system;
use crate::shooting::after_shooting;
use crate::shooting::player_shoot_fits;
use crate::shooting::player_shoot_system;
use crate::shooting::shooting_fits;
use crate::world::World;

verus! {

/// Why an update was not carried out.
#[derive(Clone, Copy, Debug, PartialEq, Eq, Structural)]
pub enum Refusal {
    /// Some enemy has a heading out of bounds.
    Malformed,
    /// Some place or frame index that the update leads to cannot be stored.
    OutOfRange,
}

/// The world after one simulation tick.
///
/// The four rules apply one after the other, each to the world that the one
/// before it left: movement, shooting, projectiles, enemies. A projectile fired
/// during the tick is in the world when the projectile rule runs, so it starts
/// to fly on the tick that fires it.
pub open spec fn after_fixed_update(
    entities: Seq<Entity>,
    input: Input,
    delta: u64,
    width: i128,
) -> Seq<Entity> {
    let moved = after_movement(entities, input, delta);
    let shot = after_shooting(moved, input.fire, delta);
    let flown = after_flight(shot, delta);
    after_patrol(flown, delta, width)
}

/// Every place that the tick leads to can be stored.
pub open spec fn fixed_update_fits(entities: Seq<Entity>, input: Input, delta: u64) -> bool {
    let moved = after_movement(entities, input, delta);
    let shot = after_shooting(moved, input.fire, delta);
    let flown = after_flight(shot, delta);
    &&& movement_fits(entities, input, delta)
    &&& shooting_fits(moved, input.fire, delta)
    &&& flight_fits(shot, delta)
    &&& patrol_fits(flown, delta)
}

/// Advances the game by one simulation tick of `delta` nanoseconds, with the
/// controls as `input` says and a window `width` wide.
pub fn fixed_update(world: &mut World, input: &Input, delta: u64, width: i128)
    requires
        old(world).wf(),
        fixed_update_fits(old(world)@, *input, delta),
    ensures
        final(world)@ == after_fixed_update(old(world)@, *input, delta, width),
        final(world)@.len() >= old(world)@.len(),
        final(world).wf(),
{
    player_movement_system(world, input, delta);
    player_shoot_system(world, input, delta);
    projectile_movement_system(world, delta);
    enemy_movement_system(world, delta, width);
}

/// Advances the game by one simulation tick if the world is well formed and every
/// place that the tick leads to can be stored. Otherwise says why not and leaves
/// the world as it is.
pub fn try_fixed_update(world: &mut World, input: &Input, delta: u64, width: i128) -> (outcome:
    Result<(), Refusal>)
    ensures
        outcome == if !old(world).wf() {
            Err::<(), Refusal>(Refusal::Malformed)
        } else if !fixed_update_fits(old(world)@, *input, delta) {
            Err::<(), Refusal>(Refusal::OutOfRange)
        } else {
            Ok::<(), Refusal>(())
        },
        final(world)@ == if outcome is Ok {
            after_fixed_update(old(world)@, *input, delta, width)
        } else {
            old(world)@
        },
        outcome is Ok ==> final(world).wf(),
{
    if !world.is_wf() {
        return Err(Refusal::Malformed);
    }
    let mut next = world.duplicate();
    if !player_movement_fits(&next, input, delta) {
        return Err(Refusal::OutOfRange);
    }
    player_movement_system(&mut next, input, delta);
    if !player_shoot_fits(&next, input, delta) {
        return Err(Refusal::OutOfRange);
    }
    player_shoot_system(&mut next, input, delta);
    if !projectile_movement_fits(&next, delta) {
        return Err(Refusal::OutOfRange);
    }
    projectile_movement_system(&mut next, delta);
    if !enemy_movement_fits(&next, delta) {
        return Err(Refusal::OutOfRange);
    }
    enemy_movement_system(&mut next, delta, width);
    *world = next;
    Ok(())
}

/// Advances the animations by one rendered frame of `delta` nanoseconds.
pub fn frame_update(world: &mut World, delta: u64)
    requires
        animation_fits(old(world)@, delta),
    ensures
        final(world)@ == after_animation(old(world)@, delta),
        final(world)@.len() == old(world)@.len(),
        old(world).wf() ==> final(world).wf(),
{
    animate_sprite(world, delta);
}

/// Advances the animations by one rendered frame if every frame index that the
/// update leads to can be stored. Otherwise says so and leaves the world as it
/// is.
pub fn try_frame_update(world: &mut World, delta: u64) -> (outcome: Result<(), Refusal>)
    ensures
        outcome == if animation_fits(old(world)@, delta) {
            Ok::<(), Refusal>(())
        } else {
            Err::<(), Refusal>(Refusal::OutOfRange)
        },
        final(world)@ == if outcome is Ok {
            after_animation(old(world)@, delta)
        } else {
            old(world)@
        },
        old(world).wf() ==> final(world).wf(),
{
    if !animate_sprite_fits(world, delta) {
        return Err(Refusal::OutOfRange);
    }
    animate_sprite(world, delta);
    Ok(())
}

} // verus!
