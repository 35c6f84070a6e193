//! The animation rule: a sprite steps through its frames at a fixed cadence.

use vstd::prelude::*;
use crate::components::AnimationIndices;
use crate::components::AnimationTimer;
use crate::components::Entity;
use crate::components::SpriteFrame;
use crate::world::lemma_between_handles;
use crate::world::lemma_walk_moves_on;
use crate::world::selects;
use crate::world::walk_front;
use crate::world::Wanted;
use crate::world::World;

verus! {

/// The records that animation asks for: frame bounds, an animation timer and a
/// frame.
pub open spec fn spec_animated_records() -> Wanted {
    Wanted {
        animation_indices: true,
        animation_timer: true,
        sprite: true,
        ..Wanted::spec_nothing()
    }
}

/// The entity is animated: it has frame bounds, an animation timer and a frame.
pub open spec fn is_animated(entity: Entity) -> bool {
    entity.carries(spec_animated_records())
}

/// The frame that follows `index`: the first frame after the last one, else the
/// next one up.
pub open spec fn next_frame(indices: AnimationIndices, index: usize) -> int {
    if index == indices.last {
        indices.first as int
    } else {
        index + 1
    }
}

/// The animated entity steps to its next frame during a tick of `delta`
/// nanoseconds: its timer completes a cadence in it.
pub open spec fn steps(entity: Entity, delta: u64) -> bool {
    is_animated(entity) && entity.animation_timer.unwrap().timer.finishes_in(delta)
}

/// The entity after the animation rule: the timer of an animated entity has
/// advanced by `delta`, and its frame has stepped once if the timer completed a
/// cadence, however many cadences the tick spans.
pub open spec fn animated(entity: Entity, delta: u64) -> Entity {
    if is_animated(entity) {
        let timer = entity.animation_timer.unwrap().timer.ticked(delta);
        let index = if steps(entity, delta) {
            next_frame(entity.animation_indices.unwrap(), entity.sprite.unwrap().index) as usize
        } else {
            entity.sprite.unwrap().index
        };
        Entity {
            animation_timer: Some(AnimationTimer { timer }),
            sprite: Some(SpriteFrame { index }),
            ..entity
        }
    } else {
        entity
    }
}

/// Every frame that steps during this tick steps to an index that can be
/// stored.
pub open spec fn animation_fits(entities: Seq<Entity>, delta: u64) -> bool {
    forall|i: int|
        0 <= i < entities.len() && steps(#[trigger] entities[i], delta) ==> next_frame(
            entities[i].animation_indices.unwrap(),
            entities[i].sprite.unwrap().index,
        ) <= usize::MAX
}

/// The world after the animation rule.
pub open spec fn after_animation(entities: Seq<Entity>, delta: u64) -> Seq<Entity> {
    Seq::new(entities.len(), |i: int| animated(entities[i], delta))
}

/// The frame that follows `index`.
pub fn frame_after(indices: &AnimationIndices, index: usize) -> (next: usize)
    requires
        next_frame(*indices, index) <= usize::MAX,
    ensures
        next == next_frame(*indices, index),
{
    if index == indices.last {
        indices.first
    } else {
        index + 1
    }
}

/// The records that animation asks for: frame bounds, an animation timer and a
/// frame.
pub fn animated_records() -> (wanted: Wanted)
    ensures
        wanted == spec_animated_records(),
{
    let mut wanted = Wanted::nothing();
    wanted.animation_indices = true;
    wanted.animation_timer = true;
    wanted.sprite = true;
    wanted
}

/// Tells whether [`animate_sprite`] may be called on these values.
pub fn animate_sprite_fits(world: &World, delta: u64) -> (fits: bool)
    ensures
        fits == animation_fits(world@, delta),
{
    let wanted = animated_records();
    let handles = world.query(&wanted);
    let total: usize = handles.len();
    let mut k: usize = 0;
    while k < total
        invariant
            total == handles@.len(),
            k <= total,
            selects(handles@, world@, wanted),
            wanted == spec_animated_records(),
            forall|j: int|
                0 <= j < k && steps(world@[(#[trigger] handles@[j]).index as int], delta)
                    ==> next_frame(
                    world@[handles@[j].index as int].animation_indices.unwrap(),
                    world@[handles@[j].index as int].sprite.unwrap().index,
                ) <= usize::MAX,
        decreases total - k,
    {
        let id = handles[k];
        let entity = world.entity(id.index);
        let indices = entity.animation_indices.unwrap();
        let sprite = entity.sprite.unwrap();
        let mut timer = entity.animation_timer.unwrap().timer;
        let finished = timer.tick(delta);
        if finished && sprite.index != indices.last && sprite.index == usize::MAX {
            assert(steps(world@[id.index as int], delta));
            return false;
        }
        k += 1;
    }
    true
}

/// Advances the animation timer of every animated entity by `delta` nanoseconds
/// and steps its frame where the timer completed a cadence.
///
/// A frame steps at most once per call: from the last frame to the first, else
/// one up. A tick that spans several cadences still steps the frame once.
pub fn animate_sprite(world: &mut World, delta: u64)
    requires
        animation_fits(old(world)@, delta),
    ensures
        final(world)@ == after_animation(old(world)@, delta),
        old(world).wf() ==> final(world).wf(),
{
    let wanted = animated_records();
    let handles = world.query(&wanted);
    let total: usize = handles.len();
    let mut k: usize = 0;
    proof {
        assert forall|i: int| 0 <= i < walk_front(handles@, world@, 0) implies world@[i]
            == animated(world@[i], delta) by {
            lemma_between_handles(handles@, world@, wanted, 0, i);
        }
    }
    while k < total
        invariant
            total == handles@.len(),
            k <= total,
            selects(handles@, old(world)@, wanted),
            wanted == spec_animated_records(),
            world@.len() == old(world)@.len(),
            animation_fits(old(world)@, delta),
            forall|i: int|
                0 <= i < walk_front(handles@, old(world)@, k as int) ==> world@[i] == animated(
                    old(world)@[i],
                    delta,
                ),
            forall|i: int|
                walk_front(handles@, old(world)@, k as int) <= i < world@.len() ==> world@[i]
                    == old(world)@[i],
            old(world).wf() ==> world.wf(),
        decreases total - k,
    {
        let id = handles[k];
        proof {
            lemma_walk_moves_on(handles@, old(world)@, wanted, k as int);
            assert(old(world).wf() ==> old(world)@[id.index as int].wf());
        }
        let entity = world.entity(id.index);
        let indices = entity.animation_indices.unwrap();
        let mut timer = entity.animation_timer.unwrap().timer;
        let mut frame: usize = entity.sprite.unwrap().index;
        let finished = timer.tick(delta);
        if finished {
            assert(steps(old(world)@[id.index as int], delta));
            frame = frame_after(&indices, frame);
        }
        world.replace(
            id,
            Entity {
                animation_timer: Some(AnimationTimer { timer }),
                sprite: Some(SpriteFrame { index: frame }),
                ..entity
            },
        );
        proof {
            assert forall|i: int|
                0 <= i < walk_front(handles@, old(world)@, k + 1) implies world@[i] == animated(
                old(world)@[i],
                delta,
            ) by {
                if i > id.index {
                    lemma_between_handles(handles@, old(world)@, wanted, k + 1, i);
                }
            }
        }
        k += 1;
    }
    proof {
        assert(world@ =~= after_animation(old(world)@, delta));
    }
}

} // verus!
