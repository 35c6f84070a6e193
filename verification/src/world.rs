//! The entity store: an arena of entity records addressed by handle.
//!
//! Entities are only ever added, so a handle stays valid for the life of the
//! world and the number of entities never goes down.

use vstd::prelude::*;
use crate::components::Entity;

verus! {

/// Names one entity of a [`World`].
#[derive(Clone, Copy, Debug, PartialEq, Eq, Structural)]
pub struct EntityId {
    pub index: usize,
}

/// A choice of records. A flag that is set asks for that record.
#[derive(Clone, Copy, Debug, PartialEq, Eq, Structural)]
pub struct Wanted {
    pub transform: bool,
    pub player: bool,
    pub enemy: bool,
    pub projectile: bool,
    pub velocity: bool,
    pub cooldown: bool,
    pub animation_indices: bool,
    pub animation_timer: bool,
    pub sprite: bool,
}

impl Wanted {
    /// The choice that asks for nothing, which every entity meets.
    pub open spec fn spec_nothing() -> Wanted {
        Wanted {
            transform: false,
            player: false,
            enemy: false,
            projectile: false,
            velocity: false,
            cooldown: false,
            animation_indices: false,
            animation_timer: false,
            sprite: false,
        }
    }

    /// The choice that asks for nothing, which every entity meets.
    pub fn nothing() -> (wanted: Wanted)
        ensures
            wanted == Wanted::spec_nothing(),
    {
        Wanted {
            transform: false,
            player: false,
            enemy: false,
            projectile: false,
            velocity: false,
            cooldown: false,
            animation_indices: false,
            animation_timer: false,
            sprite: false,
        }
    }
}

impl Entity {
    /// The entity carries every record that `wanted` asks for.
    pub open spec fn carries(self, wanted: Wanted) -> bool {
        &&& wanted.transform ==> self.transform is Some
        &&& wanted.player ==> self.player
        &&& wanted.enemy ==> self.enemy is Some
        &&& wanted.projectile ==> self.projectile
        &&& wanted.velocity ==> self.velocity is Some
        &&& wanted.cooldown ==> self.cooldown is Some
        &&& wanted.animation_indices ==> self.animation_indices is Some
        &&& wanted.animation_timer ==> self.animation_timer is Some
        &&& wanted.sprite ==> self.sprite is Some
    }

    /// Tells whether the entity carries every record that `wanted` asks for.
    pub fn has(&self, wanted: &Wanted) -> (yes: bool)
        ensures
            yes == self.carries(*wanted),
    {
        (!wanted.transform || self.transform.is_some()) && (!wanted.player || self.player) && (
        !wanted.enemy || self.enemy.is_some()) && (!wanted.projectile || self.projectile) && (
        !wanted.velocity || self.velocity.is_some()) && (!wanted.cooldown
            || self.cooldown.is_some()) && (!wanted.animation_indices
            || self.animation_indices.is_some()) && (!wanted.animation_timer
            || self.animation_timer.is_some()) && (!wanted.sprite || self.sprite.is_some())
    }
}

/// All the entities of the game, in the order in which they were spawned.
pub struct World {
    entities: Vec<Entity>,
}

impl View for World {
    type V = Seq<Entity>;

    /// The entities, in the order in which they were spawned; the handle of an
    /// entity is its place in this sequence.
    closed spec fn view(&self) -> Seq<Entity> {
        self.entities@
    }
}

impl World {
    /// Every enemy of the world has a heading within bounds.
    pub open spec fn wf(&self) -> bool {
        forall|i: int| 0 <= i < self@.len() ==> (#[trigger] self@[i]).wf()
    }

    /// A world without entities.
    pub fn new() -> (world: World)
        ensures
            world@ == Seq::<Entity>::empty(),
            world.wf(),
    {
        World { entities: Vec::new() }
    }

    /// The number of entities.
    pub fn len(&self) -> (count: usize)
        ensures
            count == self@.len(),
    {
        self.entities.len()
    }

    /// The records of one entity, or `None` where the handle names none.
    pub fn get(&self, id: EntityId) -> (found: Option<Entity>)
        ensures
            found == if id.index < self@.len() {
                Some(self@[id.index as int])
            } else {
                None
            },
    {
        if id.index < self.entities.len() {
            Some(self.entities[id.index])
        } else {
            None
        }
    }

    /// The records of the entity at `index`.
    pub fn entity(&self, index: usize) -> (found: Entity)
        requires
            index < self@.len(),
        ensures
            found == self@[index as int],
    {
        self.entities[index]
    }

    /// Adds an entity at the end of the world and returns its handle.
    pub fn spawn(&mut self, entity: Entity) -> (id: EntityId)
        ensures
            final(self)@ == old(self)@.push(entity),
            id.index == old(self)@.len(),
    {
        let index: usize = self.entities.len();
        self.entities.push(entity);
        EntityId { index }
    }

    /// Replaces the records of one entity. Tells whether the handle named one;
    /// where it did not, nothing changes.
    pub fn replace(&mut self, id: EntityId, entity: Entity) -> (done: bool)
        ensures
            done == (id.index < old(self)@.len()),
            final(self)@ == if done {
                old(self)@.update(id.index as int, entity)
            } else {
                old(self)@
            },
    {
        if id.index < self.entities.len() {
            self.entities.set(id.index, entity);
            true
        } else {
            false
        }
    }

    /// Adds entities at the end of the world, in their order.
    pub fn spawn_all(&mut self, entities: &Vec<Entity>)
        ensures
            final(self)@ == old(self)@ + entities@,
    {
        let count: usize = entities.len();
        let mut index: usize = 0;
        while index < count
            invariant
                count == entities@.len(),
                index <= count,
                self@ == old(self)@ + entities@.take(index as int),
            decreases count - index,
        {
            self.entities.push(entities[index]);
            index += 1;
            proof {
                assert(self@ =~= old(self)@ + entities@.take(index as int));
            }
        }
        proof {
            assert(entities@.take(count as int) =~= entities@);
        }
    }

    /// A second world with the same entities.
    pub fn duplicate(&self) -> (copy: World)
        ensures
            copy@ == self@,
    {
        let mut copy = World { entities: Vec::new() };
        copy.spawn_all(&self.entities);
        proof {
            assert(copy@ =~= self@);
        }
        copy
    }

    /// Tells whether every enemy of the world has a heading within bounds.
    pub fn is_wf(&self) -> (ok: bool)
        ensures
            ok == self.wf(),
    {
        let count: usize = self.entities.len();
        let mut index: usize = 0;
        while index < count
            invariant
                count == self@.len(),
                index <= count,
                forall|i: int| 0 <= i < index ==> (#[trigger] self@[i]).wf(),
            decreases count - index,
        {
            if !self.entities[index].is_wf() {
                return false;
            }
            index += 1;
        }
        true
    }

    /// The handles of the entities that carry every record `wanted` asks for, in
    /// the order in which they were spawned.
    pub fn query(&self, wanted: &Wanted) -> (found: Vec<EntityId>)
        ensures
            selects(found@, self@, *wanted),
    {
        let count: usize = self.entities.len();
        let mut found: Vec<EntityId> = Vec::new();
        let mut index: usize = 0;
        while index < count
            invariant
                count == self@.len(),
                index <= count,
                selects(found@, self@.take(index as int), *wanted),
            decreases count - index,
        {
            let ghost before = found@;
            if self.entities[index].has(wanted) {
                found.push(EntityId { index });
            }
            proof {
                let seen = self@.take(index as int);
                let next = self@.take(index + 1);
                assert forall|i: int| 0 <= i < next.len() && (#[trigger] next[i]).carries(*wanted)
                    implies exists|k: int| 0 <= k < found@.len() && (#[trigger] found@[k]).index == i by {
                    if i < index {
                        assert(seen[i].carries(*wanted));
                        let k = choose|k: int|
                            0 <= k < before.len() && (#[trigger] before[k]).index == i;
                        assert(found@[k].index == i);
                    } else {
                        assert(found@[before.len() as int].index == i);
                    }
                }
            }
            index += 1;
        }
        proof {
            assert(self@.take(count as int) =~= self@);
        }
        found
    }
}

/// The handles name exactly the entities that carry every record `wanted` asks
/// for, each once and in rising order.
pub open spec fn selects(handles: Seq<EntityId>, entities: Seq<Entity>, wanted: Wanted) -> bool {
    &&& forall|k: int|
        0 <= k < handles.len() ==> (#[trigger] handles[k]).index < entities.len()
            && entities[handles[k].index as int].carries(wanted)
    &&& forall|j: int, k: int|
        0 <= j < k < handles.len() ==> (#[trigger] handles[j]).index < (#[trigger] handles[k]).index
    &&& forall|i: int|
        0 <= i < entities.len() && (#[trigger] entities[i]).carries(wanted) ==> exists|k: int|
            0 <= k < handles.len() && (#[trigger] handles[k]).index == i
}

/// Where the walk through the handles stands before handle `k`: at the entity
/// that this handle names, or behind the last entity once the handles are used
/// up.
pub open spec fn walk_front(handles: Seq<EntityId>, entities: Seq<Entity>, k: int) -> int {
    if k < handles.len() {
        handles[k].index as int
    } else {
        entities.len() as int
    }
}

/// Between two handles that follow each other, and before the first and behind
/// the last, no entity carries what was asked for.
pub proof fn lemma_between_handles(
    handles: Seq<EntityId>,
    entities: Seq<Entity>,
    wanted: Wanted,
    k: int,
    i: int,
)
    requires
        selects(handles, entities, wanted),
        0 <= k <= handles.len(),
        0 <= i < walk_front(handles, entities, k),
        k > 0 ==> handles[k - 1].index < i,
    ensures
        !entities[i].carries(wanted),
        i < entities.len(),
{
    if k < handles.len() {
        assert(handles[k].index < entities.len());
    }
    if entities[i].carries(wanted) {
        let j = choose|j: int| 0 <= j < handles.len() && (#[trigger] handles[j]).index == i;
        if j < k {
            if j < k - 1 {
                assert(handles[j].index < handles[k - 1].index);
            }
        } else {
            if j > k {
                assert(handles[k].index < handles[j].index);
            }
        }
    }
}

/// The walk through the handles only moves forward and ends behind the last
/// entity.
pub proof fn lemma_walk_moves_on(
    handles: Seq<EntityId>,
    entities: Seq<Entity>,
    wanted: Wanted,
    k: int,
)
    requires
        selects(handles, entities, wanted),
        0 <= k < handles.len(),
    ensures
        walk_front(handles, entities, k) < walk_front(handles, entities, k + 1),
        walk_front(handles, entities, k + 1) <= entities.len(),
        walk_front(handles, entities, k) == handles[k].index,
{
    if k + 1 < handles.len() {
        assert(handles[k].index < handles[k + 1].index);
        assert(handles[k + 1].index < entities.len());
    } else {
        assert(handles[k].index < entities.len());
    }
}

} // verus!
