//! The opening scene: one player and a handful of enemies.

use vstd::prelude::*;
use crate::clock::Timer;
use crate::clock::TimerMode;
use crate::components::Cooldown;
use crate::components::Direction;
use crate::components::Enemy;
use crate::components::Entity;
use crate::components::Transform;
use crate::space::Vec3;
use crate::units::COOLDOWN_NANOS;
use crate::units::ENEMY_LAYER;
use crate::units::NUMBER_OF_ENEMIES;
use crate::units::PLAYER_START_DEPTH;
use crate::units::ROLL_ONE;
use crate::units::UNIT;
use crate::world::World;

verus! {

/// What the host rolls for one enemy: how far across and how far up the window
/// it starts, each as a fraction of [`ROLL_ONE`], and which way it heads.
#[derive(Clone, Copy, Debug, PartialEq, Eq, Structural)]
pub struct EnemyRoll {
    /// Roll for the horizontal place.
    pub x: u32,
    /// Roll for the vertical place.
    pub y: u32,
    /// Heading.
    pub direction: Direction,
}

/// Where an enemy starts and which way it heads.
#[derive(Clone, Copy, Debug, PartialEq, Eq, Structural)]
pub struct EnemyStart {
    /// Horizontal place, in length steps.
    pub x: i128,
    /// Vertical place, in length steps.
    pub y: i128,
    /// Heading.
    pub direction: Direction,
}

/// The player as the game opens: below the centre of the window, on the ground
/// layer, with an empty one-shot cooldown.
pub open spec fn player_at_start() -> Entity {
    Entity {
        transform: Some(
            Transform { translation: Vec3 { x: 0, y: (-PLAYER_START_DEPTH * UNIT) as i128, z: 0 } },
        ),
        player: true,
        enemy: None,
        projectile: false,
        velocity: None,
        cooldown: Some(
            Cooldown { timer: Timer { period: COOLDOWN_NANOS, mode: TimerMode::Once, elapsed: 0 } },
        ),
        animation_indices: None,
        animation_timer: None,
        sprite: None,
    }
}

/// An enemy as the game opens: at its place on the enemy layer, with its heading.
pub open spec fn enemy_from(start: EnemyStart) -> Entity {
    Entity {
        transform: Some(
            Transform {
                translation: Vec3 { x: start.x, y: start.y, z: (ENEMY_LAYER * UNIT) as i128 },
            },
        ),
        player: false,
        enemy: Some(Enemy { direction: start.direction }),
        projectile: false,
        velocity: None,
        cooldown: None,
        animation_indices: None,
        animation_timer: None,
        sprite: None,
    }
}

/// The coordinate that `roll` picks between the centre of the window and half
/// its `extent`: roll × extent / 2, rounded down to a whole length step.
pub open spec fn rolled_coordinate(extent: i128, roll: u32) -> int {
    (roll * extent) / (2 * ROLL_ONE)
}

/// The start that a roll gives an enemy in a window of this width and height.
pub open spec fn start_from(roll: EnemyRoll, width: i128, height: i128) -> EnemyStart {
    EnemyStart {
        x: rolled_coordinate(width, roll.x) as i128,
        y: rolled_coordinate(height, roll.y) as i128,
        direction: roll.direction,
    }
}

/// The roll can be used: both fractions lie below one and the heading lies
/// within bounds.
pub open spec fn roll_accepted(roll: EnemyRoll) -> bool {
    &&& roll.x < ROLL_ONE
    &&& roll.y < ROLL_ONE
    &&& roll.direction.wf()
}

/// The opening scene can be built: the window has no negative extent, there is
/// one roll for each enemy of the scene, and every roll can be used.
pub open spec fn setup_accepts(width: i128, height: i128, rolls: Seq<EnemyRoll>) -> bool {
    &&& width >= 0
    &&& height >= 0
    &&& rolls.len() == NUMBER_OF_ENEMIES
    &&& forall|i: int| 0 <= i < rolls.len() ==> roll_accepted(#[trigger] rolls[i])
}

/// The opening scene: the player, then the enemies in the order of their rolls.
pub open spec fn opening(width: i128, height: i128, rolls: Seq<EnemyRoll>) -> Seq<Entity> {
    seq![player_at_start()] + Seq::new(
        rolls.len(),
        |i: int| enemy_from(start_from(rolls[i], width, height)),
    )
}

/// Picks a coordinate between the centre of the window and half its `extent`.
pub fn roll_coordinate(extent: i128, roll: u32) -> (coordinate: i128)
    requires
        extent >= 0,
        roll < ROLL_ONE,
    ensures
        coordinate == rolled_coordinate(extent, roll),
        0 <= 2 * coordinate <= extent,
        extent > 0 ==> 2 * coordinate < extent,
{
    let span: u128 = extent as u128;
    let whole: u128 = 2 * (ROLL_ONE as u128);
    let parts: u128 = roll as u128;
    let quotient: u128 = span / whole;
    let rest: u128 = span % whole;
    proof {
        lemma_rolled_in_parts(span as int, parts as int, whole as int);
        assert(rest * parts <= 2_000_000 * 1_000_000) by (nonlinear_arith)
            requires
                0 <= rest <= 2_000_000,
                0 <= parts <= 1_000_000,
        ;
    }
    let coarse: u128 = quotient * parts;
    let fine: u128 = (rest * parts) / whole;
    (coarse + fine) as i128
}

/// Splitting `span` into whole multiples of `whole` and a rest splits the rolled
/// coordinate the same way, and the coordinate stays within half the span.
proof fn lemma_rolled_in_parts(span: int, parts: int, whole: int)
    requires
        span >= 0,
        whole > 0,
        0 <= 2 * parts < whole,
    ensures
        (parts * span) / whole == (span / whole) * parts + ((span % whole) * parts) / whole,
        0 <= (span / whole) * parts <= span,
        0 <= (span % whole) * parts < whole * whole,
        0 <= 2 * ((parts * span) / whole) <= span,
        span > 0 ==> 2 * ((parts * span) / whole) < span,
{
    let quotient = span / whole;
    let rest = span % whole;
    assert(span == quotient * whole + rest && 0 <= rest < whole && quotient >= 0)
        by (nonlinear_arith)
        requires
            span >= 0,
            whole > 0,
            quotient == span / whole,
            rest == span % whole,
    ;
    assert(parts * span == (quotient * parts) * whole + rest * parts) by (nonlinear_arith)
        requires
            span == quotient * whole + rest,
    ;
    assert(0 <= rest * parts < whole * whole) by (nonlinear_arith)
        requires
            0 <= rest < whole,
            0 <= parts < whole,
    ;
    assert(0 <= quotient * parts <= span) by (nonlinear_arith)
        requires
            span == quotient * whole + rest,
            rest >= 0,
            quotient >= 0,
            0 <= parts < whole,
    ;
    vstd::arithmetic::div_mod::lemma_hoist_over_denominator(
        rest * parts,
        quotient * parts,
        whole as nat,
    );
    vstd::arithmetic::div_mod::lemma_fundamental_div_mod(parts * span, whole);
    let picked = (parts * span) / whole;
    let over = (parts * span) % whole;
    assert(0 <= over < whole) by (nonlinear_arith)
        requires
            whole > 0,
            over == (parts * span) % whole,
    ;
    assert(2 * picked * whole <= 2 * parts * span) by (nonlinear_arith)
        requires
            parts * span == whole * picked + over,
            over >= 0,
    ;
    assert(2 * parts * span <= whole * span && (span > 0 ==> 2 * parts * span < whole * span))
        by (nonlinear_arith)
        requires
            0 <= 2 * parts < whole,
            span >= 0,
    ;
    assert(2 * picked <= span && (span > 0 ==> 2 * picked < span) && picked >= 0)
        by (nonlinear_arith)
        requires
            2 * picked * whole <= whole * span,
            span > 0 ==> 2 * picked * whole < whole * span,
            whole > 0,
            parts * span == whole * picked + over,
            over < whole,
            parts >= 0,
            span >= 0,
    ;
}

/// Tells whether a roll can be used.
pub fn accepts_roll(roll: &EnemyRoll) -> (accepted: bool)
    ensures
        accepted == roll_accepted(*roll),
{
    roll.x < ROLL_ONE && roll.y < ROLL_ONE && roll.direction.is_wf()
}

/// The start that a roll gives an enemy in a window of this width and height.
pub fn place_enemy(roll: &EnemyRoll, width: i128, height: i128) -> (start: EnemyStart)
    requires
        width >= 0,
        height >= 0,
        roll_accepted(*roll),
    ensures
        start == start_from(*roll, width, height),
        0 <= 2 * start.x <= width,
        0 <= 2 * start.y <= height,
        start.direction.wf(),
{
    EnemyStart {
        x: roll_coordinate(width, roll.x),
        y: roll_coordinate(height, roll.y),
        direction: roll.direction,
    }
}

/// Builds the player as the game opens.
pub fn new_player() -> (player: Entity)
    ensures
        player == player_at_start(),
        player.wf(),
{
    Entity {
        transform: Some(Transform { translation: Vec3 { x: 0, y: -PLAYER_START_DEPTH * UNIT, z: 0 } }),
        player: true,
        enemy: None,
        projectile: false,
        velocity: None,
        cooldown: Some(Cooldown { timer: Timer::new(COOLDOWN_NANOS, TimerMode::Once) }),
        animation_indices: None,
        animation_timer: None,
        sprite: None,
    }
}

/// Builds an enemy as the game opens.
pub fn new_enemy(start: &EnemyStart) -> (enemy: Entity)
    ensures
        enemy == enemy_from(*start),
        enemy.wf() == start.direction.wf(),
{
    Entity {
        transform: Some(
            Transform { translation: Vec3 { x: start.x, y: start.y, z: ENEMY_LAYER * UNIT } },
        ),
        player: false,
        enemy: Some(Enemy { direction: start.direction }),
        projectile: false,
        velocity: None,
        cooldown: None,
        animation_indices: None,
        animation_timer: None,
        sprite: None,
    }
}

/// Builds the opening scene in a window of this width and height: the player
/// first, then one enemy per roll, each placed between the centre of the window
/// and half its extent to the right and upward.
///
/// Returns `None`, and builds nothing, unless the window has no negative extent,
/// there is exactly one roll for each enemy of the scene, and every roll has both
/// fractions below one and a heading within bounds.
pub fn setup(width: i128, height: i128, rolls: &Vec<EnemyRoll>) -> (scene: Option<World>)
    ensures
        scene is Some == setup_accepts(width, height, rolls@),
        scene matches Some(world) ==> world@ == opening(width, height, rolls@) && world.wf(),
{
    let count: usize = rolls.len();
    if width < 0 || height < 0 || count != NUMBER_OF_ENEMIES {
        return None;
    }
    let mut world = World::new();
    world.spawn(new_player());
    let mut index: usize = 0;
    while index < count
        invariant
            width >= 0,
            height >= 0,
            count == rolls@.len(),
            count == NUMBER_OF_ENEMIES,
            index <= count,
            world@.len() == index + 1,
            world@[0] == player_at_start(),
            forall|i: int|
                0 <= i < index ==> world@[i + 1] == enemy_from(start_from(rolls@[i], width, height)),
            forall|i: int| 0 <= i < index ==> roll_accepted(#[trigger] rolls@[i]),
            world.wf(),
        decreases count - index,
    {
        let roll = rolls[index];
        if !accepts_roll(&roll) {
            return None;
        }
        let start = place_enemy(&roll, width, height);
        world.spawn(new_enemy(&start));
        index += 1;
    }
    proof {
        assert(world@ =~= opening(width, height, rolls@));
    }
    Some(world)
}

} // verus!
