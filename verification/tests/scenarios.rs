use arcade_shooter::clock::Timer;
use arcade_shooter::clock::TimerMode;
use arcade_shooter::components::AnimationIndices;
use arcade_shooter::components::Direction;
use arcade_shooter::components::Enemy;
use arcade_shooter::components::Entity;
use arcade_shooter::components::SpriteFrame;
use arcade_shooter::components::Transform;
use arcade_shooter::enemy::enemy_movement_system;
use arcade_shooter::input::Input;
use arcade_shooter::movement::player_movement_system;
use arcade_shooter::projectile::projectile_movement_system;
use arcade_shooter::schedule::fixed_update;
use arcade_shooter::schedule::frame_update;
use arcade_shooter::schedule::try_fixed_update;
use arcade_shooter::schedule::try_frame_update;
use arcade_shooter::schedule::Refusal;
use arcade_shooter::setup::new_enemy;
use arcade_shooter::setup::new_player;
use arcade_shooter::setup::setup;
use arcade_shooter::setup::EnemyRoll;
use arcade_shooter::setup::EnemyStart;
use arcade_shooter::shooting::player_shoot_system;
use arcade_shooter::shooting::spawn_projectile;
use arcade_shooter::space::Vec3;
use arcade_shooter::space::Velocity;
use arcade_shooter::units::world_units;
use arcade_shooter::units::NUMBER_OF_ENEMIES;
use arcade_shooter::world::World;

const SECOND: u64 = 1_000_000_000;
const MILLI: u64 = 1_000_000;

const IDLE: Input = Input { left: false, right: false, fire: false };
const FIRE: Input = Input { left: false, right: false, fire: true };
const RIGHT_AND_FIRE: Input = Input { left: false, right: true, fire: true };

fn place(x: i64, y: i64, z: i64) -> Vec3 {
    Vec3::new(world_units(x), world_units(y), world_units(z))
}

fn enemy_at(x: i64, dx: i32, dy: i32) -> Entity {
    new_enemy(&EnemyStart {
        x: world_units(x),
        y: world_units(50),
        direction: Direction::new(dx, dy).unwrap(),
    })
}

fn place_of(world: &World, index: usize) -> Vec3 {
    world.entity(index).transform.unwrap().translation
}

fn snapshot(world: &World) -> Vec<Entity> {
    let mut entities: Vec<Entity> = Vec::new();
    for index in 0..world.len() {
        entities.push(world.entity(index));
    }
    entities
}

#[test]
fn first_shot_flies_forty_units_in_a_tenth_of_a_second() {
    let mut world = World::new();
    world.spawn(new_player());
    fixed_update(&mut world, &FIRE, 600 * MILLI, world_units(800));
    assert_eq!(world.len(), 2);
    assert_eq!(world.entity(0).cooldown.unwrap().timer.elapsed, 0);
    let shot = world.entity(1);
    assert_eq!(shot.sprite, Some(SpriteFrame { index: 1 }));
    assert_eq!(shot.velocity, Some(Velocity { x: 0, y: 400_000_000, z: 0 }));
    assert_eq!(shot.animation_indices, Some(AnimationIndices { first: 1, last: 3 }));
    let before = place_of(&world, 1);
    assert_eq!(before, place(0, -15, 0));
    fixed_update(&mut world, &FIRE, 100 * MILLI, world_units(800));
    let after = place_of(&world, 1);
    assert_eq!(after.y - before.y, world_units(40));
    assert_eq!(after.y - before.y, 40_000_000_000_000_000);
    assert_eq!(after.x, before.x);
    assert_eq!(after.z, before.z);
    assert_eq!(world.len(), 2);
}

#[test]
fn enemy_past_the_right_edge_turns_in_no_time() {
    let mut world = World::new();
    world.spawn(enemy_at(401, 1_000_000, 0));
    fixed_update(&mut world, &IDLE, 0, world_units(800));
    assert_eq!(world.entity(0).enemy, Some(Enemy { direction: Direction { x: -1_000_000, y: 0 } }));
    assert_eq!(place_of(&world, 0), place(401, 50, 10));
    let mut nudged = World::new();
    nudged.spawn(enemy_at(401, 1_000_000, 0));
    fixed_update(&mut nudged, &IDLE, 1, world_units(800));
    assert_eq!(nudged.entity(0).enemy.unwrap().direction.x, -1_000_000);
    assert_eq!(place_of(&nudged, 0).x - world_units(401), 230_000_000);
}

#[test]
fn tick_runs_the_four_rules_in_order() {
    let mut world = World::new();
    world.spawn(new_player());
    world.spawn(enemy_at(0, -1_000_000, 0));
    world.spawn(spawn_projectile(place(9, 0, 0)));
    fixed_update(&mut world, &RIGHT_AND_FIRE, SECOND, world_units(800));
    assert_eq!(world.len(), 4);
    assert_eq!(place_of(&world, 0), place(400, -300, 0));
    assert_eq!(world.entity(0).cooldown.unwrap().timer.elapsed, 0);
    assert_eq!(place_of(&world, 1), place(-230, 50, 10));
    assert_eq!(world.entity(1).enemy.unwrap().direction.x, -1_000_000);
    assert_eq!(place_of(&world, 2), place(9, 400, 0));
    assert_eq!(world.entity(3), spawn_projectile(place(400, 145, 0)));
}

#[test]
fn fresh_shot_flies_on_the_tick_that_fires_it() {
    let mut world = World::new();
    world.spawn(new_player());
    fixed_update(&mut world, &FIRE, SECOND, world_units(800));
    assert_eq!(place_of(&world, 1), place(0, 145, 0));
    fixed_update(&mut world, &IDLE, SECOND, world_units(800));
    assert_eq!(place_of(&world, 1), place(0, 545, 0));
}

#[test]
fn tick_equals_the_four_rules_one_after_the_other() {
    let mut whole = World::new();
    whole.spawn(new_player());
    whole.spawn(enemy_at(300, 1_000_000, 0));
    whole.spawn(spawn_projectile(place(9, 0, 0)));
    let mut stepwise = whole.duplicate();
    let width = world_units(800);
    fixed_update(&mut whole, &RIGHT_AND_FIRE, 700 * MILLI, width);
    player_movement_system(&mut stepwise, &RIGHT_AND_FIRE, 700 * MILLI);
    player_shoot_system(&mut stepwise, &RIGHT_AND_FIRE, 700 * MILLI);
    projectile_movement_system(&mut stepwise, 700 * MILLI);
    enemy_movement_system(&mut stepwise, 700 * MILLI, width);
    assert_eq!(snapshot(&whole), snapshot(&stepwise));
    assert_eq!(whole.len(), 4);
    assert_eq!(place_of(&whole, 0), place(280, -300, 0));
    assert_eq!(place_of(&whole, 1), place(461, 50, 10));
    assert_eq!(whole.entity(1).enemy.unwrap().direction.x, -1_000_000);
    assert_eq!(place_of(&whole, 2), place(9, 280, 0));
    assert_eq!(place_of(&whole, 3), place(280, 25, 0));
}

#[test]
fn tick_without_entities_does_nothing() {
    let mut world = World::new();
    fixed_update(&mut world, &RIGHT_AND_FIRE, SECOND, world_units(800));
    assert_eq!(world.len(), 0);
    assert_eq!(try_fixed_update(&mut world, &RIGHT_AND_FIRE, SECOND, 0), Ok(()));
    assert_eq!(world.len(), 0);
    frame_update(&mut world, SECOND);
    assert_eq!(try_frame_update(&mut world, SECOND), Ok(()));
    assert_eq!(world.len(), 0);
}

#[test]
fn tick_leaves_frames_alone_and_frame_leaves_places_alone() {
    let mut world = World::new();
    world.spawn(spawn_projectile(place(0, 0, 0)));
    fixed_update(&mut world, &IDLE, SECOND, world_units(800));
    assert_eq!(world.entity(0).sprite, Some(SpriteFrame { index: 1 }));
    assert_eq!(world.entity(0).animation_timer, spawn_projectile(place(0, 0, 0)).animation_timer);
    assert_eq!(place_of(&world, 0), place(0, 400, 0));
    frame_update(&mut world, 100 * MILLI);
    assert_eq!(world.entity(0).sprite, Some(SpriteFrame { index: 2 }));
    assert_eq!(place_of(&world, 0), place(0, 400, 0));
}

#[test]
fn the_number_of_entities_never_goes_down() {
    let rolls: Vec<EnemyRoll> = (0..NUMBER_OF_ENEMIES)
        .map(|index| EnemyRoll {
            x: 150_000 * index as u32,
            y: 100_000 * index as u32,
            direction: Direction::new(600_000, 800_000).unwrap(),
        })
        .collect();
    let mut world = setup(world_units(800), world_units(600), &rolls).unwrap();
    let mut count = world.len();
    assert_eq!(count, 6);
    let mut tick: u32 = 0;
    while tick < 200 {
        let input = Input { left: tick % 3 == 0, right: tick % 5 == 0, fire: tick % 2 == 0 };
        assert_eq!(try_fixed_update(&mut world, &input, 15_625_000, world_units(800)), Ok(()));
        assert_eq!(try_frame_update(&mut world, 16_666_667), Ok(()));
        assert!(world.len() >= count);
        count = world.len();
        tick += 1;
    }
    assert_eq!(count, 6 + 5);
    assert!(world.is_wf());
}

#[test]
fn try_tick_agrees_with_tick() {
    let mut checked = World::new();
    checked.spawn(new_player());
    checked.spawn(enemy_at(399, 1_000_000, 0));
    checked.spawn(spawn_projectile(place(9, 0, 0)));
    let mut plain = checked.duplicate();
    assert_eq!(try_fixed_update(&mut checked, &RIGHT_AND_FIRE, SECOND, world_units(800)), Ok(()));
    fixed_update(&mut plain, &RIGHT_AND_FIRE, SECOND, world_units(800));
    assert_eq!(snapshot(&checked), snapshot(&plain));
    assert_eq!(try_frame_update(&mut checked, 250 * MILLI), Ok(()));
    frame_update(&mut plain, 250 * MILLI);
    assert_eq!(snapshot(&checked), snapshot(&plain));
    assert_eq!(checked.len(), 4);
}

#[test]
fn try_tick_refuses_a_malformed_world() {
    let mut world = World::new();
    world.spawn(new_player());
    let mut wild = Entity::empty();
    wild.enemy = Some(Enemy { direction: Direction { x: i32::MIN, y: 0 } });
    world.spawn(wild);
    let before = snapshot(&world);
    assert_eq!(
        try_fixed_update(&mut world, &RIGHT_AND_FIRE, SECOND, world_units(800)),
        Err(Refusal::Malformed)
    );
    assert_eq!(snapshot(&world), before);
}

#[test]
fn frame_does_not_mind_a_wild_heading() {
    let mut world = World::new();
    let mut wild = spawn_projectile(place(0, 0, 0));
    wild.enemy = Some(Enemy { direction: Direction { x: i32::MIN, y: 0 } });
    world.spawn(wild);
    assert_eq!(try_frame_update(&mut world, 100 * MILLI), Ok(()));
    assert_eq!(world.entity(0).sprite, Some(SpriteFrame { index: 2 }));
    assert_eq!(world.entity(0).enemy, wild.enemy);
    assert!(!world.is_wf());
}

#[test]
fn try_tick_refuses_a_move_out_of_range() {
    let mut world = World::new();
    let mut player = new_player();
    player.transform = Some(Transform { translation: Vec3::new(i128::MAX, 0, 0) });
    world.spawn(player);
    world.spawn(enemy_at(0, 1_000_000, 0));
    let before = snapshot(&world);
    let right = Input { left: false, right: true, fire: false };
    assert_eq!(
        try_fixed_update(&mut world, &right, 1, world_units(800)),
        Err(Refusal::OutOfRange)
    );
    assert_eq!(snapshot(&world), before);
    let left = Input { left: true, right: false, fire: false };
    assert_eq!(try_fixed_update(&mut world, &left, 1, world_units(800)), Ok(()));
    assert_eq!(place_of(&world, 0).x, i128::MAX - 400_000_000);
    assert_eq!(place_of(&world, 1).x, 230_000_000);
}

#[test]
fn try_tick_refuses_a_shot_out_of_range() {
    let mut world = World::new();
    let mut player = new_player();
    player.transform = Some(Transform { translation: Vec3::new(0, i128::MAX, 0) });
    world.spawn(player);
    let before = snapshot(&world);
    assert_eq!(
        try_fixed_update(&mut world, &FIRE, SECOND, world_units(800)),
        Err(Refusal::OutOfRange)
    );
    assert_eq!(snapshot(&world), before);
    assert_eq!(try_fixed_update(&mut world, &IDLE, SECOND, world_units(800)), Ok(()));
    assert_eq!(world.len(), 1);
}

#[test]
fn try_tick_refuses_a_flight_out_of_range() {
    let mut world = World::new();
    world.spawn(new_player());
    world.spawn(spawn_projectile(Vec3::new(0, i128::MAX - 5, 0)));
    let before = snapshot(&world);
    assert_eq!(
        try_fixed_update(&mut world, &RIGHT_AND_FIRE, SECOND, world_units(800)),
        Err(Refusal::OutOfRange)
    );
    assert_eq!(snapshot(&world), before);
    assert_eq!(try_fixed_update(&mut world, &RIGHT_AND_FIRE, 0, world_units(800)), Ok(()));
}

#[test]
fn try_tick_refuses_a_patrol_out_of_range() {
    let mut world = World::new();
    world.spawn(new_player());
    let mut enemy = enemy_at(0, -1_000_000, 0);
    enemy.transform = Some(Transform { translation: Vec3::new(i128::MIN + 10, 0, 0) });
    world.spawn(enemy);
    let before = snapshot(&world);
    assert_eq!(
        try_fixed_update(&mut world, &RIGHT_AND_FIRE, SECOND, world_units(800)),
        Err(Refusal::OutOfRange)
    );
    assert_eq!(snapshot(&world), before);
}

#[test]
fn try_frame_refuses_a_frame_out_of_range() {
    let mut world = World::new();
    let mut odd = spawn_projectile(place(0, 0, 0));
    odd.sprite = Some(SpriteFrame { index: usize::MAX });
    world.spawn(odd);
    let before = snapshot(&world);
    assert_eq!(try_frame_update(&mut world, 100 * MILLI), Err(Refusal::OutOfRange));
    assert_eq!(snapshot(&world), before);
    assert_eq!(try_frame_update(&mut world, 99 * MILLI), Ok(()));
    assert_eq!(
        world.entity(0).animation_timer.unwrap().timer,
        Timer { period: 100_000_000, mode: TimerMode::Repeating, elapsed: 99_000_000 }
    );
}

#[test]
fn player_that_is_also_a_projectile_fires_from_where_it_stood() {
    let mut world = World::new();
    let mut hybrid = new_player();
    hybrid.projectile = true;
    hybrid.velocity = Some(Velocity { x: 0, y: 1_000_000, z: 0 });
    world.spawn(hybrid);
    fixed_update(&mut world, &FIRE, SECOND, world_units(800));
    assert_eq!(place_of(&world, 0), place(0, -299, 0));
    assert_eq!(place_of(&world, 1), place(0, 145, 0));
}

#[test]
fn try_tick_refuses_a_fresh_shot_that_flies_out_of_range() {
    let mut world = World::new();
    let mut player = new_player();
    player.transform =
        Some(Transform { translation: Vec3::new(0, i128::MAX - world_units(45) - 10, 0) });
    world.spawn(player);
    let before = snapshot(&world);
    assert_eq!(
        try_fixed_update(&mut world, &FIRE, SECOND, world_units(800)),
        Err(Refusal::OutOfRange)
    );
    assert_eq!(snapshot(&world), before);
    assert_eq!(try_fixed_update(&mut world, &FIRE, 599 * MILLI, world_units(800)), Ok(()));
    assert_eq!(world.len(), 1);
}
