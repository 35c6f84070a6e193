//! Laws of the simulation, each proved from the rules it speaks of.

use vstd::prelude::*;
use crate::animation::after_animation;
use crate::animation::animated;
use crate::animation::is_animated;
use crate::animation::next_frame;
use crate::animation::steps;
use crate::clock::elapsed_after_tick;
use crate::clock::Timer;
use crate::components::AnimationIndices;
use crate::components::Direction;
use crate::components::Entity;
use crate::enemy::at_left_edge;
use crate::enemy::at_right_edge;
use crate::enemy::is_patrolling;
use crate::enemy::patrol_speed;
use crate::enemy::patrolled;
use crate::input::Input;
use crate::movement::after_movement;
use crate::movement::is_steered;
use crate::movement::movement_fits;
use crate::movement::steered;
use crate::movement::steering_speed;
use crate::projectile::after_flight;
use crate::projectile::flown;
use crate::projectile::is_flying;
use crate::schedule::after_fixed_update;
use crate::shooting::fires;
use crate::shooting::is_gunner;
use crate::shooting::projectile_at;
use crate::shooting::reloaded;
use crate::shooting::shots;
use crate::space::coordinate_fits;
use crate::units::ENEMY_SPEED;
use crate::units::PLAYER_SPEED;
use crate::units::PROJECTILE_SPEED;
use crate::units::SPEED_UNIT;

verus! {

/// A tick never leaves a timer with more time than it had plus the tick, and
/// never changes its period or mode.
pub proof fn lemma_tick_gathers_no_more_than_passed(timer: Timer, delta: u64)
    ensures
        timer.ticked(delta).elapsed <= timer.elapsed + delta,
        timer.ticked(delta).elapsed == elapsed_after_tick(
            timer.period,
            timer.mode,
            timer.elapsed,
            delta,
        ),
        timer.ticked(delta).period == timer.period,
        timer.ticked(delta).mode == timer.mode,
{
    let total = timer.elapsed + delta;
    if total >= timer.period && timer.period > 0 {
        let period = timer.period as int;
        assert(0 <= total % period < period) by (nonlinear_arith)
            requires
                period > 0,
                total >= 0,
        ;
    }
}

/// Movement integrates linearly. For every tick length and every state of the
/// controls, a steered entity ends the tick at its old x plus direction × speed ×
/// time, where the direction is `-1`, `0` or `1`; its y and z stay, and so does
/// every entity that is not steered.
pub proof fn lemma_movement_is_linear(entities: Seq<Entity>, input: Input, delta: u64, i: int)
    requires
        0 <= i < entities.len(),
        movement_fits(entities, input, delta),
    ensures
        -1 <= input.spec_horizontal() <= 1,
        after_movement(entities, input, delta).len() == entities.len(),
        is_steered(entities[i]) ==> {
            let before = entities[i].transform.unwrap().translation;
            let after = after_movement(entities, input, delta)[i].transform.unwrap().translation;
            &&& after_movement(entities, input, delta)[i].transform is Some
            &&& after.x == before.x + input.spec_horizontal() * PLAYER_SPEED * SPEED_UNIT * delta
            &&& after.y == before.y
            &&& after.z == before.z
        },
        !is_steered(entities[i]) ==> after_movement(entities, input, delta)[i] == entities[i],
{
    if is_steered(entities[i]) {
        let d = input.spec_horizontal();
        assert(steering_speed(input) == d * PLAYER_SPEED * SPEED_UNIT);
        assert(steering_speed(input) * delta == d * PLAYER_SPEED * SPEED_UNIT * delta);
    }
}

/// Two ticks in a row with the controls unchanged move a steered entity as far as
/// one tick of their combined length.
pub proof fn lemma_movement_adds_up(entity: Entity, input: Input, first: u64, second: u64)
    requires
        is_steered(entity),
        first + second <= u64::MAX,
        coordinate_fits(entity.transform.unwrap().translation.x, steering_speed(input), first),
        coordinate_fits(
            entity.transform.unwrap().translation.x,
            steering_speed(input),
            (first + second) as u64,
        ),
    ensures
        steered(steered(entity, input, first), input, second) == steered(
            entity,
            input,
            (first + second) as u64,
        ),
{
    let speed = steering_speed(input) as int;
    assert(speed * first + speed * second == speed * (first + second)) by (nonlinear_arith);
}

/// A gunner fires exactly when the fire signal is on and its cooldown, with the
/// time of this tick added, has reached its period. Where it fires its cooldown
/// is empty afterwards; where it does not, the cooldown holds what the tick left
/// in it.
pub proof fn lemma_fires_when_cooled_down(entity: Entity, fire: bool, delta: u64)
    requires
        is_gunner(entity),
    ensures
        fires(entity, fire, delta) <==> fire && entity.cooldown.unwrap().timer.elapsed + delta
            >= entity.cooldown.unwrap().timer.period,
        is_gunner(reloaded(entity, fire, delta)),
        fires(entity, fire, delta) ==> reloaded(entity, fire, delta).cooldown.unwrap().timer.elapsed
            == 0,
        !fires(entity, fire, delta) ==> reloaded(entity, fire, delta).cooldown.unwrap().timer
            == entity.cooldown.unwrap().timer.ticked(delta),
        reloaded(entity, fire, delta).cooldown.unwrap().timer.period
            == entity.cooldown.unwrap().timer.period,
        reloaded(entity, fire, delta).cooldown.unwrap().timer.mode
            == entity.cooldown.unwrap().timer.mode,
{
}

/// The entity after a run of shooting ticks, each given by its fire signal and
/// its length.
pub open spec fn after_shooting_run(entity: Entity, ticks: Seq<(bool, u64)>) -> Entity
    decreases ticks.len(),
{
    if ticks.len() == 0 {
        entity
    } else {
        reloaded(after_shooting_run(entity, ticks.drop_last()), ticks.last().0, ticks.last().1)
    }
}

/// The combined length of a run of ticks.
pub open spec fn run_time(ticks: Seq<(bool, u64)>) -> nat
    decreases ticks.len(),
{
    if ticks.len() == 0 {
        0
    } else {
        run_time(ticks.drop_last()) + ticks.last().1 as nat
    }
}

/// Throughout a run of ticks that begins with an empty cooldown, the cooldown
/// holds no more time than has passed.
pub proof fn lemma_cooldown_lags_time(entity: Entity, ticks: Seq<(bool, u64)>)
    requires
        is_gunner(entity),
        entity.cooldown.unwrap().timer.elapsed == 0,
    ensures
        is_gunner(after_shooting_run(entity, ticks)),
        after_shooting_run(entity, ticks).cooldown.unwrap().timer.period
            == entity.cooldown.unwrap().timer.period,
        after_shooting_run(entity, ticks).cooldown.unwrap().timer.elapsed <= run_time(ticks),
    decreases ticks.len(),
{
    if ticks.len() > 0 {
        lemma_cooldown_lags_time(entity, ticks.drop_last());
        let before = after_shooting_run(entity, ticks.drop_last());
        lemma_tick_gathers_no_more_than_passed(before.cooldown.unwrap().timer, ticks.last().1);
    }
}

/// Two shots of one gunner are at least a cooldown apart. A run of ticks that
/// begins with an empty cooldown, as a shot leaves it, and ends with a shot has
/// lasted at least one period, whatever the fire signal did in between.
pub proof fn lemma_shots_are_a_cooldown_apart(entity: Entity, ticks: Seq<(bool, u64)>)
    requires
        is_gunner(entity),
        entity.cooldown.unwrap().timer.elapsed == 0,
        ticks.len() > 0,
        fires(after_shooting_run(entity, ticks.drop_last()), ticks.last().0, ticks.last().1),
    ensures
        run_time(ticks) >= entity.cooldown.unwrap().timer.period,
{
    lemma_cooldown_lags_time(entity, ticks.drop_last());
}

/// A projectile moves by its velocity × time along each axis, and nothing else
/// about it changes. One that was fired and never touched since climbs at the
/// projectile speed and keeps its x and z.
pub proof fn lemma_projectile_flies_straight(entity: Entity, delta: u64)
    requires
        is_flying(entity),
        entity.transform.unwrap().translation.can_advance(entity.velocity.unwrap(), delta),
    ensures
        flown(entity, delta).transform is Some,
        flown(entity, delta).transform.unwrap().translation.x
            == entity.transform.unwrap().translation.x + entity.velocity.unwrap().x * delta,
        flown(entity, delta).transform.unwrap().translation.y
            == entity.transform.unwrap().translation.y + entity.velocity.unwrap().y * delta,
        flown(entity, delta).transform.unwrap().translation.z
            == entity.transform.unwrap().translation.z + entity.velocity.unwrap().z * delta,
        flown(entity, delta) == (Entity { transform: flown(entity, delta).transform, ..entity }),
        entity.velocity == projectile_at(entity.transform.unwrap().translation).velocity ==> {
            let before = entity.transform.unwrap().translation;
            let after = flown(entity, delta).transform.unwrap().translation;
            &&& after.x == before.x
            &&& after.y == before.y + PROJECTILE_SPEED * SPEED_UNIT * delta
            &&& after.z == before.z
        },
{
    let velocity = entity.velocity.unwrap();
    if entity.velocity == projectile_at(entity.transform.unwrap().translation).velocity {
        assert(velocity.y == PROJECTILE_SPEED * SPEED_UNIT);
        assert(velocity.x * delta == 0) by (nonlinear_arith)
            requires
                velocity.x == 0,
        ;
        assert(velocity.z * delta == 0) by (nonlinear_arith)
            requires
                velocity.z == 0,
        ;
    }
}

/// What the projectile rule does to an entity depends on that entity alone. Two
/// worlds that agree on one entity still agree on it after the rule, whatever
/// else they hold.
pub proof fn lemma_flight_is_local(one: Seq<Entity>, other: Seq<Entity>, delta: u64, i: int)
    requires
        0 <= i < one.len(),
        0 <= i < other.len(),
        one[i] == other[i],
    ensures
        after_flight(one, delta)[i] == after_flight(other, delta)[i],
        after_flight(one, delta)[i] == flown(one[i], delta),
{
}

/// An enemy turns round on the very tick that brings it to an edge. In a window
/// of positive width, an enemy that ends the tick at or beyond the right edge, or
/// at or beyond the left edge, has the horizontal component of its heading change
/// sign; one that ends it between the edges keeps its heading. The vertical
/// component never changes and the enemy moves along x alone.
pub proof fn lemma_enemy_turns_at_the_edges(entity: Entity, delta: u64, width: i128)
    requires
        is_patrolling(entity),
        entity.wf(),
        width > 0,
        coordinate_fits(
            entity.transform.unwrap().translation.x,
            patrol_speed(entity.enemy.unwrap().direction),
            delta,
        ),
    ensures
        is_patrolling(patrolled(entity, delta, width)),
        patrolled(entity, delta, width).wf(),
        ({
            let before = entity.transform.unwrap().translation;
            let after = patrolled(entity, delta, width).transform.unwrap().translation;
            let heading = entity.enemy.unwrap().direction;
            let turned = patrolled(entity, delta, width).enemy.unwrap().direction;
            &&& after.x == before.x + heading.x * ENEMY_SPEED * delta
            &&& after.y == before.y
            &&& after.z == before.z
            &&& turned.y == heading.y
            &&& turned.x == if 2 * after.x >= width || 2 * after.x <= -width {
                -heading.x
            } else {
                heading.x as int
            }
        }),
{
}

/// How many ticks of a run end with the enemy at or beyond the right edge of the
/// window.
pub open spec fn right_edge_visits(entity: Entity, deltas: Seq<u64>, width: i128) -> nat
    decreases deltas.len(),
{
    if deltas.len() == 0 {
        0
    } else {
        let earlier = right_edge_visits(entity, deltas.drop_last(), width);
        let x = after_patrol_run(entity, deltas, width).transform.unwrap().translation.x;
        if at_right_edge(x, width) {
            earlier + 1nat
        } else {
            earlier
        }
    }
}

/// How many ticks of a run end with the enemy at or beyond the left edge of the
/// window.
pub open spec fn left_edge_visits(entity: Entity, deltas: Seq<u64>, width: i128) -> nat
    decreases deltas.len(),
{
    if deltas.len() == 0 {
        0
    } else {
        let earlier = left_edge_visits(entity, deltas.drop_last(), width);
        let x = after_patrol_run(entity, deltas, width).transform.unwrap().translation.x;
        if at_left_edge(x, width) {
            earlier + 1nat
        } else {
            earlier
        }
    }
}

/// The entity after a run of enemy ticks of the given lengths.
pub open spec fn after_patrol_run(entity: Entity, deltas: Seq<u64>, width: i128) -> Entity
    decreases deltas.len(),
{
    if deltas.len() == 0 {
        entity
    } else {
        patrolled(after_patrol_run(entity, deltas.drop_last(), width), deltas.last(), width)
    }
}

/// Mirroring a heading twice gives it back.
pub proof fn lemma_bounce_twice(direction: Direction)
    requires
        direction.wf(),
    ensures
        direction.bounced().wf(),
        direction.bounced().bounced() == direction,
{
}

/// The heading of an enemy after a run of ticks is its first heading if it came
/// to the edges an even number of times in all, and that heading mirrored if odd.
pub proof fn lemma_heading_follows_edge_visits(entity: Entity, deltas: Seq<u64>, width: i128)
    requires
        is_patrolling(entity),
        entity.wf(),
        width > 0,
    ensures
        is_patrolling(after_patrol_run(entity, deltas, width)),
        after_patrol_run(entity, deltas, width).wf(),
        after_patrol_run(entity, deltas, width).enemy.unwrap().direction == if (right_edge_visits(
            entity,
            deltas,
            width,
        ) + left_edge_visits(entity, deltas, width)) % 2 == 0 {
            entity.enemy.unwrap().direction
        } else {
            entity.enemy.unwrap().direction.bounced()
        },
    decreases deltas.len(),
{
    if deltas.len() > 0 {
        lemma_heading_follows_edge_visits(entity, deltas.drop_last(), width);
        let before = after_patrol_run(entity, deltas.drop_last(), width);
        lemma_bounce_twice(entity.enemy.unwrap().direction);
        lemma_bounce_twice(before.enemy.unwrap().direction);
    }
}

/// The round trip of an enemy. In a window of positive width, an enemy that has
/// come to each edge once, in either order and with any number of ticks before,
/// between and after, heads the way it first did: a heading of `1.0` that crossed
/// the right edge and then the left is `1.0` again.
pub proof fn lemma_bounce_round_trip(entity: Entity, deltas: Seq<u64>, width: i128)
    requires
        is_patrolling(entity),
        entity.wf(),
        width > 0,
        right_edge_visits(entity, deltas, width) == 1,
        left_edge_visits(entity, deltas, width) == 1,
    ensures
        after_patrol_run(entity, deltas, width).enemy.unwrap().direction
            == entity.enemy.unwrap().direction,
{
    lemma_heading_follows_edge_visits(entity, deltas, width);
}

/// The frame reached from `index` by stepping `count` times.
pub open spec fn frame_after_steps(indices: AnimationIndices, index: usize, count: nat) -> int
    decreases count,
{
    if count == 0 {
        index as int
    } else {
        let earlier = frame_after_steps(indices, index, (count - 1) as nat);
        if earlier == indices.last {
            indices.first as int
        } else {
            earlier + 1
        }
    }
}

/// A frame steps at most once per poll. The frame of an animated entity steps to
/// the next one exactly when its timer, with the time of this poll added, has
/// reached its cadence, and stays otherwise: a poll that spans many cadences
/// steps the frame once and no more.
pub proof fn lemma_frame_steps_once_per_poll(entity: Entity, delta: u64)
    requires
        is_animated(entity),
        next_frame(entity.animation_indices.unwrap(), entity.sprite.unwrap().index) <= usize::MAX,
    ensures
        is_animated(animated(entity, delta)),
        steps(entity, delta) <==> entity.animation_timer.unwrap().timer.elapsed + delta
            >= entity.animation_timer.unwrap().timer.period,
        animated(entity, delta).sprite.unwrap().index == if steps(entity, delta) {
            frame_after_steps(entity.animation_indices.unwrap(), entity.sprite.unwrap().index, 1)
        } else {
            entity.sprite.unwrap().index as int
        },
        animated(entity, delta).animation_indices == entity.animation_indices,
        animated(entity, delta).animation_timer.unwrap().timer
            == entity.animation_timer.unwrap().timer.ticked(delta),
{
    reveal_with_fuel(frame_after_steps, 2);
}

/// Frames cycle. Stepping from a frame within the bounds walks up to the last
/// frame, wraps to the first, and so on: after `count` steps the frame is `count`
/// places further round the cycle, and after one step per frame of the cycle it
/// is back where it began.
pub proof fn lemma_frames_cycle(indices: AnimationIndices, index: usize, count: nat)
    requires
        indices.first <= index <= indices.last,
    ensures
        frame_after_steps(indices, index, count) == indices.first + (index - indices.first + count)
            % (indices.last - indices.first + 1),
        indices.first <= frame_after_steps(indices, index, count) <= indices.last,
        frame_after_steps(indices, index, (indices.last - indices.first + 1) as nat) == index,
{
    let length = indices.last - indices.first + 1;
    let offset = index - indices.first;
    lemma_cycle_position(indices, index, count);
    lemma_cycle_position(indices, index, length as nat);
    assert((offset + length) % length == offset) by (nonlinear_arith)
        requires
            0 <= offset < length,
    ;
}

/// After `count` steps the frame is `count` places further round the cycle.
proof fn lemma_cycle_position(indices: AnimationIndices, index: usize, count: nat)
    requires
        indices.first <= index <= indices.last,
    ensures
        frame_after_steps(indices, index, count) == indices.first + (index - indices.first + count)
            % (indices.last - indices.first + 1),
        indices.first <= frame_after_steps(indices, index, count) <= indices.last,
    decreases count,
{
    let length = indices.last - indices.first + 1;
    let offset = index - indices.first;
    if count == 0 {
        assert(offset % length == offset) by (nonlinear_arith)
            requires
                0 <= offset < length,
        ;
    } else {
        lemma_cycle_position(indices, index, (count - 1) as nat);
        let before = offset + count - 1;
        assert(0 <= before % length < length) by (nonlinear_arith)
            requires
                length > 0,
                before >= 0,
        ;
        assert((before + 1) % length == if before % length == length - 1 {
            0
        } else {
            before % length + 1
        }) by (nonlinear_arith)
            requires
                length > 0,
                before >= 0,
        ;
    }
}

/// A tick fires at most one projectile per entity, and each is a well-formed
/// entity as it leaves the muzzle.
pub proof fn lemma_one_shot_each(entities: Seq<Entity>, fire: bool, delta: u64)
    ensures
        shots(entities, fire, delta).len() <= entities.len(),
        !fire ==> shots(entities, fire, delta).len() == 0,
        forall|k: int|
            0 <= k < shots(entities, fire, delta).len() ==> {
                let shot = #[trigger] shots(entities, fire, delta)[k];
                &&& shot == projectile_at(shot.transform.unwrap().translation)
                &&& shot.wf()
            },
    decreases entities.len(),
{
    if entities.len() > 0 {
        lemma_one_shot_each(entities.drop_last(), fire, delta);
    }
}

/// Entities are never removed. A tick keeps every entity of the world at its
/// handle, with the markers it had and without adding or dropping a record, and
/// puts the projectiles fired behind them, so the number of entities never goes
/// down; a frame changes no handle and no count.
pub proof fn lemma_entities_only_grow(entities: Seq<Entity>, input: Input, delta: u64, width: i128)
    ensures
        after_fixed_update(entities, input, delta, width).len() == entities.len() + shots(
            after_movement(entities, input, delta),
            input.fire,
            delta,
        ).len(),
        entities.len() <= after_fixed_update(entities, input, delta, width).len() <= 2
            * entities.len(),
        after_animation(entities, delta).len() == entities.len(),
        forall|i: int|
            0 <= i < entities.len() ==> {
                let before = #[trigger] entities[i];
                let after = after_fixed_update(entities, input, delta, width)[i];
                &&& after.player == before.player
                &&& after.projectile == before.projectile
                &&& after.transform is Some == before.transform is Some
                &&& after.enemy is Some == before.enemy is Some
                &&& after.velocity == before.velocity
                &&& after.cooldown is Some == before.cooldown is Some
                &&& after.animation_indices == before.animation_indices
                &&& after.animation_timer == before.animation_timer
                &&& after.sprite == before.sprite
            },
{
    lemma_one_shot_each(after_movement(entities, input, delta), input.fire, delta);
}

/// Each rule keeps to its own records. Movement and the projectile rule change
/// nothing but the place of an entity, shooting nothing but its cooldown, the
/// enemy rule nothing but its place and heading, and animation nothing but its
/// animation timer and frame; no rule adds a record to an entity or takes one
/// away. Two rules that write different records can therefore run in either
/// order on an entity, as movement and animation do here.
pub proof fn lemma_each_rule_keeps_to_its_records(
    entity: Entity,
    input: Input,
    delta: u64,
    width: i128,
)
    ensures
        steered(entity, input, delta) == (Entity {
            transform: steered(entity, input, delta).transform,
            ..entity
        }),
        reloaded(entity, input.fire, delta) == (Entity {
            cooldown: reloaded(entity, input.fire, delta).cooldown,
            ..entity
        }),
        flown(entity, delta) == (Entity { transform: flown(entity, delta).transform, ..entity }),
        patrolled(entity, delta, width) == (Entity {
            transform: patrolled(entity, delta, width).transform,
            enemy: patrolled(entity, delta, width).enemy,
            ..entity
        }),
        animated(entity, delta) == (Entity {
            animation_timer: animated(entity, delta).animation_timer,
            sprite: animated(entity, delta).sprite,
            ..entity
        }),
        steered(entity, input, delta).transform is Some == entity.transform is Some,
        reloaded(entity, input.fire, delta).cooldown is Some == entity.cooldown is Some,
        flown(entity, delta).transform is Some == entity.transform is Some,
        patrolled(entity, delta, width).transform is Some == entity.transform is Some,
        patrolled(entity, delta, width).enemy is Some == entity.enemy is Some,
        animated(entity, delta).animation_timer is Some == entity.animation_timer is Some,
        animated(entity, delta).sprite is Some == entity.sprite is Some,
        animated(steered(entity, input, delta), delta) == steered(
            animated(entity, delta),
            input,
            delta,
        ),
{
}

/// One entity after a simulation tick: steered, reloaded, flown and patrolled, in
/// that order.
pub open spec fn after_tick_alone(entity: Entity, input: Input, delta: u64, width: i128) -> Entity {
    patrolled(
        flown(reloaded(steered(entity, input, delta), input.fire, delta), delta),
        delta,
        width,
    )
}

/// A tick acts on each entity alone. What a simulation tick makes of an entity
/// that was in the world when the tick began depends on that entity, the
/// controls, the length of the tick and the width of the window, and on no other
/// entity; likewise what a frame makes of it depends on that entity and the
/// length of the frame.
pub proof fn lemma_tick_acts_on_each_entity_alone(
    entities: Seq<Entity>,
    input: Input,
    delta: u64,
    width: i128,
    i: int,
)
    requires
        0 <= i < entities.len(),
    ensures
        after_fixed_update(entities, input, delta, width)[i] == after_tick_alone(
            entities[i],
            input,
            delta,
            width,
        ),
        after_animation(entities, delta)[i] == animated(entities[i], delta),
{
}

} // verus!
