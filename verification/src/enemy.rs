//! The enemy rule: enemies travel sideways and turn round at the edges of the
//! window.

use vstd::prelude::*;
use crate::components::Direction;
use crate::components::Enemy;
use crate::components::Entity;
use crate::components::Transform;
use crate::space::coordinate_after;
use crate::space::coordinate_fits;
use crate::space::travel;
use crate::space::travel_fits;
use crate::space::Vec3;
use crate::units::ENEMY_SPEED;
use crate::world::lemma_between_handles;
use crate::world::lemma_walk_moves_on;
use crate::world::selects;
use crate::world::walk_front;
use crate::world::Wanted;
use crate::world::World;

verus! {

/// The records that patrolling asks for: the enemy record and a place.
pub open spec fn spec_patrolling_records() -> Wanted {
    Wanted { enemy: true, transform: true, ..Wanted::spec_nothing() }
}

/// The entity patrols as an enemy: it is one and has a place.
pub open spec fn is_patrolling(entity: Entity) -> bool {
    entity.carries(spec_patrolling_records())
}

/// The horizontal speed of an enemy with this heading, in speed steps. The
/// vertical component of the heading moves nothing.
pub open spec fn patrol_speed(direction: Direction) -> i64 {
    (direction.x * ENEMY_SPEED) as i64
}

/// The coordinate `x` lies at or beyond the right edge of a window of this
/// width, which is half the width to the right of the centre.
pub open spec fn at_right_edge(x: i128, width: i128) -> bool {
    2 * x >= width
}

/// The coordinate `x` lies at or beyond the left edge of a window of this width,
/// which is half the width to the left of the centre.
pub open spec fn at_left_edge(x: i128, width: i128) -> bool {
    2 * x <= -width
}

/// The heading of an enemy that has arrived at `x`: mirrored if `x` lies at the
/// right edge, and then mirrored if `x` lies at the left edge.
pub open spec fn heading_at(direction: Direction, x: i128, width: i128) -> Direction {
    let right = if at_right_edge(x, width) {
        direction.bounced()
    } else {
        direction
    };
    if at_left_edge(x, width) {
        right.bounced()
    } else {
        right
    }
}

/// The entity after the enemy rule: a patrolling entity has moved along x by
/// heading × speed × time and has turned round if that brought it to an edge.
pub open spec fn patrolled(entity: Entity, delta: u64, width: i128) -> Entity {
    if is_patrolling(entity) {
        let direction = entity.enemy.unwrap().direction;
        let from = entity.transform.unwrap().translation;
        let x = coordinate_after(from.x, patrol_speed(direction), delta) as i128;
        Entity {
            transform: Some(Transform { translation: Vec3 { x, y: from.y, z: from.z } }),
            enemy: Some(Enemy { direction: heading_at(direction, x, width) }),
            ..entity
        }
    } else {
        entity
    }
}

/// Every patrolling entity ends the tick at a place that can be stored.
pub open spec fn patrol_fits(entities: Seq<Entity>, delta: u64) -> bool {
    forall|i: int|
        0 <= i < entities.len() && is_patrolling(#[trigger] entities[i]) ==> coordinate_fits(
            entities[i].transform.unwrap().translation.x,
            patrol_speed(entities[i].enemy.unwrap().direction),
            delta,
        )
}

/// The world after the enemy rule.
pub open spec fn after_patrol(entities: Seq<Entity>, delta: u64, width: i128) -> Seq<Entity> {
    Seq::new(entities.len(), |i: int| patrolled(entities[i], delta, width))
}

/// The horizontal speed of an enemy with this heading, in speed steps.
pub fn speed_along(direction: &Direction) -> (speed: i64)
    ensures
        speed == patrol_speed(*direction),
        speed == direction.x * ENEMY_SPEED,
{
    let wide: i64 = direction.x as i64;
    assert(-0x8000_0000 * 230 <= wide * ENEMY_SPEED <= 0x8000_0000 * 230) by (nonlinear_arith)
        requires
            -0x8000_0000 <= wide <= 0x8000_0000,
            ENEMY_SPEED == 230,
    ;
    wide * ENEMY_SPEED
}

/// Tells whether `x` lies at or beyond the right edge of a window of this width.
pub fn reached_right_edge(x: i128, width: i128) -> (reached: bool)
    ensures
        reached == at_right_edge(x, width),
{
    match x.checked_mul(2) {
        Some(twice) => twice >= width,
        None => x > 0,
    }
}

/// Tells whether `x` lies at or beyond the left edge of a window of this width.
pub fn reached_left_edge(x: i128, width: i128) -> (reached: bool)
    ensures
        reached == at_left_edge(x, width),
{
    match x.checked_mul(2) {
        Some(twice) => match twice.checked_add(width) {
            Some(sum) => sum <= 0,
            None => width < 0,
        },
        None => x < 0 || (width == i128::MIN && x == 0x4000_0000_0000_0000_0000_0000_0000_0000),
    }
}

/// The heading of an enemy that has arrived at `x`.
pub fn turn_at(direction: &Direction, x: i128, width: i128) -> (heading: Direction)
    requires
        direction.wf(),
    ensures
        heading == heading_at(*direction, x, width),
        heading.wf(),
{
    let mut heading = *direction;
    if reached_right_edge(x, width) {
        heading = heading.bounce();
    }
    if reached_left_edge(x, width) {
        heading = heading.bounce();
    }
    heading
}

/// The records that patrolling asks for: the enemy record and a place.
pub fn patrolling_records() -> (wanted: Wanted)
    ensures
        wanted == spec_patrolling_records(),
{
    let mut wanted = Wanted::nothing();
    wanted.enemy = true;
    wanted.transform = true;
    wanted
}

/// Tells whether [`enemy_movement_system`] may be called on these values.
pub fn enemy_movement_fits(world: &World, delta: u64) -> (fits: bool)
    ensures
        fits == patrol_fits(world@, delta),
{
    let wanted = patrolling_records();
    let handles = world.query(&wanted);
    let total: usize = handles.len();
    let mut k: usize = 0;
    while k < total
        invariant
            total == handles@.len(),
            k <= total,
            selects(handles@, world@, wanted),
            wanted == spec_patrolling_records(),
            forall|j: int|
                0 <= j < k ==> coordinate_fits(
                    world@[(#[trigger] handles@[j]).index as int].transform.unwrap().translation.x,
                    patrol_speed(world@[handles@[j].index as int].enemy.unwrap().direction),
                    delta,
                ),
        decreases total - k,
    {
        let id = handles[k];
        let entity = world.entity(id.index);
        let from = entity.transform.unwrap().translation;
        let direction = entity.enemy.unwrap().direction;
        if !travel_fits(from.x, speed_along(&direction), delta) {
            assert(is_patrolling(world@[id.index as int]));
            return false;
        }
        k += 1;
    }
    true
}

/// Moves every enemy along x by heading × speed × `delta` and turns it round at
/// the edges of a window `width` wide.
///
/// Only the horizontal component of the heading moves an enemy. After the move,
/// an enemy at or beyond the right edge has the horizontal component of its
/// heading change sign, and so has one at or beyond the left edge; both edges are
/// tested on every tick. No enemy is ever removed.
pub fn enemy_movement_system(world: &mut World, delta: u64, width: i128)
    requires
        old(world).wf(),
        patrol_fits(old(world)@, delta),
    ensures
        final(world)@ == after_patrol(old(world)@, delta, width),
        final(world).wf(),
{
    let wanted = patrolling_records();
    let handles = world.query(&wanted);
    let total: usize = handles.len();
    let mut k: usize = 0;
    proof {
        assert forall|i: int| 0 <= i < walk_front(handles@, world@, 0) implies world@[i]
            == patrolled(world@[i], delta, width) by {
            lemma_between_handles(handles@, world@, wanted, 0, i);
        }
    }
    while k < total
        invariant
            total == handles@.len(),
            k <= total,
            selects(handles@, old(world)@, wanted),
            wanted == spec_patrolling_records(),
            world@.len() == old(world)@.len(),
            patrol_fits(old(world)@, delta),
            forall|i: int|
                0 <= i < walk_front(handles@, old(world)@, k as int) ==> world@[i] == patrolled(
                    old(world)@[i],
                    delta,
                    width,
                ),
            forall|i: int|
                walk_front(handles@, old(world)@, k as int) <= i < world@.len() ==> world@[i]
                    == old(world)@[i],
            old(world).wf(),
            world.wf(),
        decreases total - k,
    {
        let id = handles[k];
        proof {
            lemma_walk_moves_on(handles@, old(world)@, wanted, k as int);
            assert(old(world)@[id.index as int].wf());
        }
        let entity = world.entity(id.index);
        let from = entity.transform.unwrap().translation;
        let heading = entity.enemy.unwrap().direction;
        let x: i128 = travel(from.x, speed_along(&heading), delta);
        let direction = turn_at(&heading, x, width);
        world.replace(
            id,
            Entity {
                transform: Some(Transform { translation: Vec3 { x, y: from.y, z: from.z } }),
                enemy: Some(Enemy { direction }),
                ..entity
            },
        );
        proof {
            assert forall|i: int|
                0 <= i < walk_front(handles@, old(world)@, k + 1) implies world@[i] == patrolled(
                old(world)@[i],
                delta,
                width,
            ) by {
                if i > id.index {
                    lemma_between_handles(handles@, old(world)@, wanted, k + 1, i);
                }
            }
        }
        k += 1;
    }
    proof {
        assert(world@ =~= after_patrol(old(world)@, delta, width));
    }
}

} // verus!
