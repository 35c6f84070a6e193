//! The movement rule: the player slides left or right at a fixed speed.

use vstd::prelude::*;
use crate::components::Entity;
use crate::components::Transform;
use crate::input::Input;
use crate::space::coordinate_after;
use crate::space::coordinate_fits;
use crate::space::travel;
use crate::space::travel_fits;
use crate::space::Vec3;
use crate::units::PLAYER_SPEED;
use crate::units::SPEED_UNIT;
use crate::world::lemma_between_handles;
use crate::world::lemma_walk_moves_on;
use crate::world::selects;
use crate::world::walk_front;
use crate::world::Wanted;
use crate::world::World;

verus! {

/// The records that steering asks for: the player mark and a place.
pub open spec fn spec_steered_records() -> Wanted {
    Wanted { player: true, transform: true, ..Wanted::spec_nothing() }
}

/// The entity is steered by the controls: it is a player with a place.
pub open spec fn is_steered(entity: Entity) -> bool {
    entity.carries(spec_steered_records())
}

/// The horizontal speed that the controls ask for, in speed steps.
pub open spec fn steering_speed(input: Input) -> i64 {
    (input.spec_horizontal() * PLAYER_SPEED * SPEED_UNIT) as i64
}

/// The entity after the movement rule: a steered entity has moved along x by
/// direction × speed × time, and nothing else about it has changed.
pub open spec fn steered(entity: Entity, input: Input, delta: u64) -> Entity {
    if is_steered(entity) {
        let from = entity.transform.unwrap().translation;
        let to = Vec3 {
            x: coordinate_after(from.x, steering_speed(input), delta) as i128,
            y: from.y,
            z: from.z,
        };
        Entity { transform: Some(Transform { translation: to }), ..entity }
    } else {
        entity
    }
}

/// Every steered entity ends the tick at a place that can be stored.
pub open spec fn movement_fits(entities: Seq<Entity>, input: Input, delta: u64) -> bool {
    forall|i: int|
        0 <= i < entities.len() && is_steered(#[trigger] entities[i]) ==> coordinate_fits(
            entities[i].transform.unwrap().translation.x,
            steering_speed(input),
            delta,
        )
}

/// The world after the movement rule.
pub open spec fn after_movement(entities: Seq<Entity>, input: Input, delta: u64) -> Seq<Entity> {
    Seq::new(entities.len(), |i: int| steered(entities[i], input, delta))
}

/// The horizontal speed that the controls ask for, in speed steps.
pub fn speed_of(input: &Input) -> (speed: i64)
    ensures
        speed == steering_speed(*input),
        speed == input.spec_horizontal() * PLAYER_SPEED * SPEED_UNIT,
{
    let direction: i8 = input.horizontal();
    let full: i64 = PLAYER_SPEED * SPEED_UNIT;
    if direction < 0 {
        -full
    } else if direction > 0 {
        full
    } else {
        0
    }
}

/// The records that steering asks for: the player mark and a place.
pub fn steered_records() -> (wanted: Wanted)
    ensures
        wanted == spec_steered_records(),
{
    let mut wanted = Wanted::nothing();
    wanted.player = true;
    wanted.transform = true;
    wanted
}

/// Tells whether [`player_movement_system`] may be called on these values.
pub fn player_movement_fits(world: &World, input: &Input, delta: u64) -> (fits: bool)
    ensures
        fits == movement_fits(world@, *input, delta),
{
    let speed: i64 = speed_of(input);
    let wanted = steered_records();
    let handles = world.query(&wanted);
    let total: usize = handles.len();
    let mut k: usize = 0;
    while k < total
        invariant
            total == handles@.len(),
            k <= total,
            selects(handles@, world@, wanted),
            wanted == spec_steered_records(),
            speed == steering_speed(*input),
            forall|j: int|
                0 <= j < k ==> coordinate_fits(
                    world@[(#[trigger] handles@[j]).index as int].transform.unwrap().translation.x,
                    speed,
                    delta,
                ),
        decreases total - k,
    {
        let id = handles[k];
        let from = world.entity(id.index).transform.unwrap().translation;
        if !travel_fits(from.x, speed, delta) {
            assert(is_steered(world@[id.index as int]));
            return false;
        }
        k += 1;
    }
    true
}

/// Moves every player along x by direction × speed × `delta`, where the
/// direction is `-1`, `0` or `1` as the controls say. Nothing is clamped: the
/// player may leave the window. A world without a player is left as it is.
pub fn player_movement_system(world: &mut World, input: &Input, delta: u64)
    requires
        movement_fits(old(world)@, *input, delta),
    ensures
        final(world)@ == after_movement(old(world)@, *input, delta),
        old(world).wf() ==> final(world).wf(),
{
    let speed: i64 = speed_of(input);
    let wanted = steered_records();
    let handles = world.query(&wanted);
    let total: usize = handles.len();
    let mut k: usize = 0;
    proof {
        assert forall|i: int| 0 <= i < walk_front(handles@, world@, 0) implies world@[i]
            == steered(world@[i], *input, delta) by {
            lemma_between_handles(handles@, world@, wanted, 0, i);
        }
    }
    while k < total
        invariant
            total == handles@.len(),
            k <= total,
            selects(handles@, old(world)@, wanted),
            wanted == spec_steered_records(),
            world@.len() == old(world)@.len(),
            speed == steering_speed(*input),
            movement_fits(old(world)@, *input, delta),
            forall|i: int|
                0 <= i < walk_front(handles@, old(world)@, k as int) ==> world@[i] == steered(
                    old(world)@[i],
                    *input,
                    delta,
                ),
            forall|i: int|
                walk_front(handles@, old(world)@, k as int) <= i < world@.len() ==> world@[i]
                    == old(world)@[i],
            old(world).wf() ==> world.wf(),
        decreases total - k,
    {
        let id = handles[k];
        proof {
            lemma_walk_moves_on(handles@, old(world)@, wanted, k as int);
            assert(old(world).wf() ==> old(world)@[id.index as int].wf());
        }
        let entity = world.entity(id.index);
        let from = entity.transform.unwrap().translation;
        let to = Vec3 { x: travel(from.x, speed, delta), y: from.y, z: from.z };
        world.replace(id, Entity { transform: Some(Transform { translation: to }), ..entity });
        proof {
            assert forall|i: int|
                0 <= i < walk_front(handles@, old(world)@, k + 1) implies world@[i] == steered(
                old(world)@[i],
                *input,
                delta,
            ) by {
                if i > id.index {
                    lemma_between_handles(handles@, old(world)@, wanted, k + 1, i);
                }
            }
        }
        k += 1;
    }
    proof {
        assert(world@ =~= after_movement(old(world)@, *input, delta));
    }
}

} // verus!
