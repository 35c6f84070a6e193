//! The shooting rule: a cooldown keeps two shots of a player apart.

use vstd::prelude::*;
use crate::clock::Timer;
use crate::clock::TimerMode;
use crate::components::AnimationIndices;
use crate::components::AnimationTimer;
use crate::components::Cooldown;
use crate::components::Entity;
use crate::components::SpriteFrame;
use crate::components::Transform;
use crate::input::Input;
use crate::space::Vec3;
use crate::space::Velocity;
use crate::units::ANIMATION_CADENCE_NANOS;
use crate::units::MUZZLE_OFFSET;
use crate::units::PROJECTILE_FIRST_FRAME;
use crate::units::PROJECTILE_LAST_FRAME;
use crate::units::PROJECTILE_SPEED;
use crate::units::SPEED_UNIT;
use crate::units::UNIT;
use crate::world::lemma_between_handles;
use crate::world::lemma_walk_moves_on;
use crate::world::selects;
use crate::world::walk_front;
use crate::world::Wanted;
use crate::world::World;

verus! {

/// The records that shooting asks for: the player mark, a place and a cooldown.
pub open spec fn spec_gunner_records() -> Wanted {
    Wanted { player: true, transform: true, cooldown: true, ..Wanted::spec_nothing() }
}

/// The entity takes part in shooting: it is a player with a place and a cooldown.
pub open spec fn is_gunner(entity: Entity) -> bool {
    entity.carries(spec_gunner_records())
}

/// The entity fires during a tick of `delta` nanoseconds: it is a gunner, the
/// fire signal is on, and its cooldown, advanced by this tick, is full.
pub open spec fn fires(entity: Entity, fire: bool, delta: u64) -> bool {
    is_gunner(entity) && fire && entity.cooldown.unwrap().timer.finishes_in(delta)
}

/// The entity after the shooting rule: the cooldown of a gunner has advanced by
/// `delta`, and is empty again where the gunner fired.
pub open spec fn reloaded(entity: Entity, fire: bool, delta: u64) -> Entity {
    if is_gunner(entity) {
        let ticked = entity.cooldown.unwrap().timer.ticked(delta);
        let timer = if fires(entity, fire, delta) {
            ticked.rewound()
        } else {
            ticked
        };
        Entity { cooldown: Some(Cooldown { timer }), ..entity }
    } else {
        entity
    }
}

/// Where a projectile appears when fired from `origin`: straight above it, on
/// the ground layer.
pub open spec fn muzzle(origin: Vec3) -> Vec3 {
    Vec3 { x: origin.x, y: (origin.y + MUZZLE_OFFSET * UNIT) as i128, z: 0 }
}

/// Whether the place above `origin` can still be stored.
pub open spec fn muzzle_fits(origin: Vec3) -> bool {
    origin.y + MUZZLE_OFFSET * UNIT <= i128::MAX
}

/// A freshly fired projectile at `place`: it flies straight up, shows the first
/// frame of its animation, and its animation timer has gathered nothing.
pub open spec fn projectile_at(place: Vec3) -> Entity {
    Entity {
        transform: Some(Transform { translation: place }),
        player: false,
        enemy: None,
        projectile: true,
        velocity: Some(Velocity { x: 0, y: (PROJECTILE_SPEED * SPEED_UNIT) as i64, z: 0 }),
        cooldown: None,
        animation_indices: Some(
            AnimationIndices { first: PROJECTILE_FIRST_FRAME, last: PROJECTILE_LAST_FRAME },
        ),
        animation_timer: Some(
            AnimationTimer {
                timer: Timer {
                    period: ANIMATION_CADENCE_NANOS,
                    mode: TimerMode::Repeating,
                    elapsed: 0,
                },
            },
        ),
        sprite: Some(SpriteFrame { index: PROJECTILE_FIRST_FRAME }),
    }
}

/// The projectiles fired during one tick, in the order of the entities that fire
/// them.
pub open spec fn shots(entities: Seq<Entity>, fire: bool, delta: u64) -> Seq<Entity>
    decreases entities.len(),
{
    if entities.len() == 0 {
        Seq::empty()
    } else {
        let earlier = shots(entities.drop_last(), fire, delta);
        if fires(entities.last(), fire, delta) {
            earlier.push(projectile_at(muzzle(entities.last().transform.unwrap().translation)))
        } else {
            earlier
        }
    }
}

/// Every projectile fired during this tick appears at a place that can be stored.
pub open spec fn shooting_fits(entities: Seq<Entity>, fire: bool, delta: u64) -> bool {
    forall|i: int|
        0 <= i < entities.len() && fires(#[trigger] entities[i], fire, delta) ==> muzzle_fits(
            entities[i].transform.unwrap().translation,
        )
}

/// The world after the shooting rule: every entity reloaded, followed by the
/// projectiles fired.
pub open spec fn after_shooting(entities: Seq<Entity>, fire: bool, delta: u64) -> Seq<Entity> {
    after_reload(entities, fire, delta) + shots(entities, fire, delta)
}

/// Builds a freshly fired projectile at `place`.
pub fn spawn_projectile(place: Vec3) -> (projectile: Entity)
    ensures
        projectile == projectile_at(place),
{
    Entity {
        transform: Some(Transform { translation: place }),
        player: false,
        enemy: None,
        projectile: true,
        velocity: Some(Velocity { x: 0, y: PROJECTILE_SPEED * SPEED_UNIT, z: 0 }),
        cooldown: None,
        animation_indices: Some(
            AnimationIndices { first: PROJECTILE_FIRST_FRAME, last: PROJECTILE_LAST_FRAME },
        ),
        animation_timer: Some(
            AnimationTimer { timer: Timer::new(ANIMATION_CADENCE_NANOS, TimerMode::Repeating) },
        ),
        sprite: Some(SpriteFrame { index: PROJECTILE_FIRST_FRAME }),
    }
}

/// The records that shooting asks for: the player mark, a place and a cooldown.
pub fn gunner_records() -> (wanted: Wanted)
    ensures
        wanted == spec_gunner_records(),
{
    let mut wanted = Wanted::nothing();
    wanted.player = true;
    wanted.transform = true;
    wanted.cooldown = true;
    wanted
}

/// Entities that do not fire add nothing to the shots of a tick.
proof fn lemma_no_shots_between(
    entities: Seq<Entity>,
    fire: bool,
    delta: u64,
    from: int,
    to: int,
)
    requires
        0 <= from <= to <= entities.len(),
        forall|i: int| from <= i < to ==> !fires(#[trigger] entities[i], fire, delta),
    ensures
        shots(entities.take(to), fire, delta) == shots(entities.take(from), fire, delta),
    decreases to - from,
{
    if from < to {
        lemma_no_shots_between(entities, fire, delta, from, to - 1);
        assert(entities.take(to).drop_last() =~= entities.take(to - 1));
        assert(entities.take(to).last() == entities[to - 1]);
    }
}

/// Tells whether [`player_shoot_system`] may be called on these values.
pub fn player_shoot_fits(world: &World, input: &Input, delta: u64) -> (fits: bool)
    ensures
        fits == shooting_fits(world@, input.fire, delta),
{
    let wanted = gunner_records();
    let handles = world.query(&wanted);
    let total: usize = handles.len();
    let mut k: usize = 0;
    while k < total
        invariant
            total == handles@.len(),
            k <= total,
            selects(handles@, world@, wanted),
            wanted == spec_gunner_records(),
            forall|j: int|
                0 <= j < k && fires(world@[(#[trigger] handles@[j]).index as int], input.fire, delta)
                    ==> muzzle_fits(world@[handles@[j].index as int].transform.unwrap().translation),
        decreases total - k,
    {
        let id = handles[k];
        let entity = world.entity(id.index);
        let origin = entity.transform.unwrap().translation;
        let mut timer = entity.cooldown.unwrap().timer;
        let finished = timer.tick(delta);
        if input.fire && finished && origin.y.checked_add(MUZZLE_OFFSET * UNIT).is_none() {
            assert(fires(world@[id.index as int], input.fire, delta));
            return false;
        }
        k += 1;
    }
    true
}

/// The entities of the world after the shooting rule, without the projectiles
/// fired.
pub open spec fn after_reload(entities: Seq<Entity>, fire: bool, delta: u64) -> Seq<Entity> {
    Seq::new(entities.len(), |i: int| reloaded(entities[i], fire, delta))
}

/// Advances the cooldown of every player by `delta` nanoseconds, empties the
/// cooldown of those that fire, and returns the projectiles fired, in the order
/// of their players, without adding them to the world.
pub fn reload_players(world: &mut World, input: &Input, delta: u64) -> (fired: Vec<Entity>)
    requires
        shooting_fits(old(world)@, input.fire, delta),
    ensures
        final(world)@ == after_reload(old(world)@, input.fire, delta),
        fired@ == shots(old(world)@, input.fire, delta),
        old(world).wf() ==> final(world).wf(),
        forall|k: int| 0 <= k < fired@.len() ==> (#[trigger] fired@[k]).wf(),
{
    let fire = input.fire;
    let wanted = gunner_records();
    let handles = world.query(&wanted);
    let total: usize = handles.len();
    let mut fired: Vec<Entity> = Vec::new();
    let mut k: usize = 0;
    proof {
        assert forall|i: int| 0 <= i < walk_front(handles@, world@, 0) implies world@[i]
            == reloaded(world@[i], fire, delta) && !fires(world@[i], fire, delta) by {
            lemma_between_handles(handles@, world@, wanted, 0, i);
        }
        lemma_no_shots_between(world@, fire, delta, 0, walk_front(handles@, world@, 0));
        assert(world@.take(0) =~= Seq::<Entity>::empty());
    }
    while k < total
        invariant
            total == handles@.len(),
            k <= total,
            fire == input.fire,
            selects(handles@, old(world)@, wanted),
            wanted == spec_gunner_records(),
            world@.len() == old(world)@.len(),
            shooting_fits(old(world)@, fire, delta),
            0 <= walk_front(handles@, old(world)@, k as int) <= old(world)@.len(),
            fired@ == shots(
                old(world)@.take(walk_front(handles@, old(world)@, k as int)),
                fire,
                delta,
            ),
            forall|i: int|
                0 <= i < walk_front(handles@, old(world)@, k as int) ==> world@[i] == reloaded(
                    old(world)@[i],
                    fire,
                    delta,
                ),
            forall|i: int|
                walk_front(handles@, old(world)@, k as int) <= i < world@.len() ==> world@[i]
                    == old(world)@[i],
            forall|j: int| 0 <= j < fired@.len() ==> (#[trigger] fired@[j]).wf(),
            old(world).wf() ==> world.wf(),
        decreases total - k,
    {
        let id = handles[k];
        proof {
            lemma_walk_moves_on(handles@, old(world)@, wanted, k as int);
            assert(old(world).wf() ==> old(world)@[id.index as int].wf());
            assert(old(world)@.take(id.index + 1).drop_last() =~= old(world)@.take(
                id.index as int,
            ));
            assert(old(world)@.take(id.index + 1).last() == old(world)@[id.index as int]);
        }
        let entity = world.entity(id.index);
        let origin = entity.transform.unwrap().translation;
        let mut timer = entity.cooldown.unwrap().timer;
        let finished = timer.tick(delta);
        if fire && finished {
            let place = Vec3 { x: origin.x, y: origin.y + MUZZLE_OFFSET * UNIT, z: 0 };
            fired.push(spawn_projectile(place));
            timer.reset();
        }
        world.replace(id, Entity { cooldown: Some(Cooldown { timer }), ..entity });
        proof {
            let next = walk_front(handles@, old(world)@, k + 1);
            assert forall|i: int| id.index < i < next implies !fires(
                #[trigger] old(world)@[i],
                fire,
                delta,
            ) by {
                lemma_between_handles(handles@, old(world)@, wanted, k + 1, i);
            }
            lemma_no_shots_between(old(world)@, fire, delta, id.index + 1, next);
            assert forall|i: int| 0 <= i < next implies world@[i] == reloaded(
                old(world)@[i],
                fire,
                delta,
            ) by {
                if i > id.index {
                    lemma_between_handles(handles@, old(world)@, wanted, k + 1, i);
                }
            }
        }
        k += 1;
    }
    proof {
        assert(old(world)@.take(old(world)@.len() as int) =~= old(world)@);
        assert(world@ =~= after_reload(old(world)@, fire, delta));
    }
    fired
}

/// Advances the cooldown of every player by `delta` nanoseconds and lets those
/// fire whose cooldown is full while the fire signal is on.
///
/// A player that fires has its cooldown emptied, and one projectile appears above
/// it. The projectiles join the world behind the entities that were there, in the
/// order of their players. Holding the signal therefore fires again and again,
/// once per full cooldown.
pub fn player_shoot_system(world: &mut World, input: &Input, delta: u64)
    requires
        shooting_fits(old(world)@, input.fire, delta),
    ensures
        final(world)@ == after_shooting(old(world)@, input.fire, delta),
        old(world).wf() ==> final(world).wf(),
{
    let fired = reload_players(world, input, delta);
    world.spawn_all(&fired);
}

} // verus!
