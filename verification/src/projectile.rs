//! The projectile rule: a projectile flies on at its own constant velocity.

use vstd::prelude::*;
use crate::components::Entity;
use crate::components::Transform;
use crate::world::lemma_between_handles;
use crate::world::lemma_walk_moves_on;
use crate::world::selects;
use crate::world::walk_front;
use crate::world::Wanted;
use crate::world::World;

verus! {

/// The records that flying asks for: the projectile mark, a place and a
/// velocity.
pub open spec fn spec_flying_records() -> Wanted {
    Wanted { projectile: true, transform: true, velocity: true, ..Wanted::spec_nothing() }
}

/// The entity flies as a projectile: it is marked as one and has a place and a
/// velocity.
pub open spec fn is_flying(entity: Entity) -> bool {
    entity.carries(spec_flying_records())
}

/// The entity after the projectile rule: a flying entity has moved by velocity ×
/// time, and nothing else about it has changed.
pub open spec fn flown(entity: Entity, delta: u64) -> Entity {
    if is_flying(entity) {
        let to = entity.transform.unwrap().translation.advanced(entity.velocity.unwrap(), delta);
        Entity { transform: Some(Transform { translation: to }), ..entity }
    } else {
        entity
    }
}

/// Every flying entity ends the tick at a place that can be stored.
pub open spec fn flight_fits(entities: Seq<Entity>, delta: u64) -> bool {
    forall|i: int|
        0 <= i < entities.len() && is_flying(#[trigger] entities[i])
            ==> entities[i].transform.unwrap().translation.can_advance(
            entities[i].velocity.unwrap(),
            delta,
        )
}

/// The world after the projectile rule.
pub open spec fn after_flight(entities: Seq<Entity>, delta: u64) -> Seq<Entity> {
    Seq::new(entities.len(), |i: int| flown(entities[i], delta))
}

/// The records that flying asks for: the projectile mark, a place and a
/// velocity.
pub fn flying_records() -> (wanted: Wanted)
    ensures
        wanted == spec_flying_records(),
{
    let mut wanted = Wanted::nothing();
    wanted.projectile = true;
    wanted.transform = true;
    wanted.velocity = true;
    wanted
}

/// Tells whether [`projectile_movement_system`] may be called on these values.
pub fn projectile_movement_fits(world: &World, delta: u64) -> (fits: bool)
    ensures
        fits == flight_fits(world@, delta),
{
    let wanted = flying_records();
    let handles = world.query(&wanted);
    let total: usize = handles.len();
    let mut k: usize = 0;
    while k < total
        invariant
            total == handles@.len(),
            k <= total,
            selects(handles@, world@, wanted),
            wanted == spec_flying_records(),
            forall|j: int|
                0 <= j < k ==> world@[(#[trigger] handles@[j]).index as int].transform.unwrap().translation.can_advance(
                    world@[handles@[j].index as int].velocity.unwrap(),
                    delta,
                ),
        decreases total - k,
    {
        let id = handles[k];
        let entity = world.entity(id.index);
        let from = entity.transform.unwrap().translation;
        let velocity = entity.velocity.unwrap();
        if !from.advance_fits(&velocity, delta) {
            assert(is_flying(world@[id.index as int]));
            return false;
        }
        k += 1;
    }
    true
}

/// Moves every projectile by its velocity × `delta`. A projectile is never
/// stopped or removed, wherever it flies, and what happens to one entity depends
/// on no other.
pub fn projectile_movement_system(world: &mut World, delta: u64)
    requires
        flight_fits(old(world)@, delta),
    ensures
        final(world)@ == after_flight(old(world)@, delta),
        old(world).wf() ==> final(world).wf(),
{
    let wanted = flying_records();
    let handles = world.query(&wanted);
    let total: usize = handles.len();
    let mut k: usize = 0;
    proof {
        assert forall|i: int| 0 <= i < walk_front(handles@, world@, 0) implies world@[i] == flown(
            world@[i],
            delta,
        ) by {
            lemma_between_handles(handles@, world@, wanted, 0, i);
        }
    }
    while k < total
        invariant
            total == handles@.len(),
            k <= total,
            selects(handles@, old(world)@, wanted),
            wanted == spec_flying_records(),
            world@.len() == old(world)@.len(),
            flight_fits(old(world)@, delta),
            forall|i: int|
                0 <= i < walk_front(handles@, old(world)@, k as int) ==> world@[i] == flown(
                    old(world)@[i],
                    delta,
                ),
            forall|i: int|
                walk_front(handles@, old(world)@, k as int) <= i < world@.len() ==> world@[i]
                    == old(world)@[i],
            old(world).wf() ==> world.wf(),
        decreases total - k,
    {
        let id = handles[k];
        proof {
            lemma_walk_moves_on(handles@, old(world)@, wanted, k as int);
            assert(old(world).wf() ==> old(world)@[id.index as int].wf());
        }
        let entity = world.entity(id.index);
        let from = entity.transform.unwrap().translation;
        let velocity = entity.velocity.unwrap();
        let to = from.advance(&velocity, delta);
        world.replace(id, Entity { transform: Some(Transform { translation: to }), ..entity });
        proof {
            assert forall|i: int|
                0 <= i < walk_front(handles@, old(world)@, k + 1) implies world@[i] == flown(
                old(world)@[i],
                delta,
            ) by {
                if i > id.index {
                    lemma_between_handles(handles@, old(world)@, wanted, k + 1, i);
                }
            }
        }
        k += 1;
    }
    proof {
        assert(world@ =~= after_flight(old(world)@, delta));
    }
}

} // verus!
