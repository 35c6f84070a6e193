use arcade_shooter::components::Direction;
use arcade_shooter::components::Enemy;
use arcade_shooter::components::Entity;
use arcade_shooter::components::SpriteFrame;
use arcade_shooter::components::Transform;
use arcade_shooter::enemy::patrolling_records;
use arcade_shooter::movement::steered_records;
use arcade_shooter::projectile::flying_records;
use arcade_shooter::shooting::gunner_records;
use arcade_shooter::setup::new_enemy;
use arcade_shooter::setup::new_player;
use arcade_shooter::setup::accepts_roll;
use arcade_shooter::setup::place_enemy;
use arcade_shooter::setup::roll_coordinate;
use arcade_shooter::setup::setup;
use arcade_shooter::setup::EnemyRoll;
use arcade_shooter::setup::EnemyStart;
use arcade_shooter::shooting::spawn_projectile;
use arcade_shooter::space::Vec3;
use arcade_shooter::animation::animated_records;
use arcade_shooter::clock::Timer;
use arcade_shooter::clock::TimerMode;
use arcade_shooter::components::AnimationIndices;
use arcade_shooter::components::AnimationTimer;
use arcade_shooter::components::Cooldown;
use arcade_shooter::space::Velocity;
use arcade_shooter::units::world_units;
use arcade_shooter::world::EntityId;
use arcade_shooter::world::Wanted;
use arcade_shooter::world::World;

fn heading(x: i32, y: i32) -> Direction {
    Direction::new(x, y).unwrap()
}

fn start(x: i64, y: i64, dx: i32, dy: i32) -> EnemyStart {
    EnemyStart { x: world_units(x), y: world_units(y), direction: heading(dx, dy) }
}

fn roll(x: u32, y: u32, dx: i32, dy: i32) -> EnemyRoll {
    EnemyRoll { x, y, direction: heading(dx, dy) }
}

fn five_rolls() -> Vec<EnemyRoll> {
    vec![
        roll(0, 0, 1_000_000, 0),
        roll(250_000, 500_000, 600_000, 800_000),
        roll(500_000, 250_000, 0, 1_000_000),
        roll(999_999, 1, 707_107, 707_107),
        roll(1, 999_999, 800_000, 600_000),
    ]
}

#[test]
fn new_world_is_empty() {
    let world = World::new();
    assert_eq!(world.len(), 0);
    assert_eq!(world.get(EntityId { index: 0 }), None);
    assert!(world.is_wf());
}

#[test]
fn spawn_hands_out_handles_in_order() {
    let mut world = World::new();
    let first = world.spawn(new_player());
    let second = world.spawn(Entity::empty());
    assert_eq!(first, EntityId { index: 0 });
    assert_eq!(second, EntityId { index: 1 });
    assert_eq!(world.len(), 2);
    assert_eq!(world.get(first), Some(new_player()));
    assert_eq!(world.get(second), Some(Entity::empty()));
    assert_eq!(world.entity(1), Entity::empty());
    assert_eq!(world.get(EntityId { index: 2 }), None);
}

#[test]
fn spawn_all_keeps_the_order() {
    let mut world = World::new();
    world.spawn(new_player());
    let more = vec![Entity::empty(), spawn_projectile(Vec3::new(1, 2, 3))];
    world.spawn_all(&more);
    assert_eq!(world.len(), 3);
    assert_eq!(world.entity(0), new_player());
    assert_eq!(world.entity(1), Entity::empty());
    assert_eq!(world.entity(2), spawn_projectile(Vec3::new(1, 2, 3)));
}

#[test]
fn duplicate_is_equal_and_separate() {
    let mut world = World::new();
    world.spawn(new_player());
    world.spawn(Entity::empty());
    let mut copy = world.duplicate();
    assert_eq!(copy.len(), 2);
    assert_eq!(copy.entity(0), new_player());
    assert_eq!(copy.entity(1), Entity::empty());
    copy.spawn(Entity::empty());
    assert_eq!(copy.len(), 3);
    assert_eq!(world.len(), 2);
}

#[test]
fn replace_changes_one_entity() {
    let mut world = World::new();
    world.spawn(new_player());
    world.spawn(Entity::empty());
    let mut marked = Entity::empty();
    marked.sprite = Some(SpriteFrame { index: 7 });
    assert!(world.replace(EntityId { index: 1 }, marked));
    assert_eq!(world.entity(0), new_player());
    assert_eq!(world.entity(1), marked);
    assert_eq!(world.len(), 2);
}

#[test]
fn replace_refuses_an_unknown_handle() {
    let mut world = World::new();
    world.spawn(new_player());
    assert!(!world.replace(EntityId { index: 1 }, Entity::empty()));
    assert_eq!(world.len(), 1);
    assert_eq!(world.entity(0), new_player());
}

#[test]
fn empty_entity_carries_nothing() {
    let entity = Entity::empty();
    assert_eq!(entity.transform, None);
    assert!(!entity.player);
    assert_eq!(entity.enemy, None);
    assert!(!entity.projectile);
    assert_eq!(entity.velocity, None);
    assert_eq!(entity.cooldown, None);
    assert_eq!(entity.animation_indices, None);
    assert_eq!(entity.animation_timer, None);
    assert_eq!(entity.sprite, None);
    assert!(entity.has(&Wanted::nothing()));
    let mut wanted = Wanted::nothing();
    wanted.sprite = true;
    assert!(!entity.has(&wanted));
}

#[test]
fn has_asks_for_every_wanted_record() {
    let projectile = spawn_projectile(Vec3::new(0, 0, 0));
    let mut wanted = Wanted::nothing();
    wanted.projectile = true;
    wanted.transform = true;
    wanted.velocity = true;
    wanted.animation_indices = true;
    wanted.animation_timer = true;
    wanted.sprite = true;
    assert!(projectile.has(&wanted));
    wanted.cooldown = true;
    assert!(!projectile.has(&wanted));
    wanted.cooldown = false;
    wanted.player = true;
    assert!(!projectile.has(&wanted));
    wanted.player = false;
    wanted.enemy = true;
    assert!(!projectile.has(&wanted));
    let player = new_player();
    let mut pilot = Wanted::nothing();
    pilot.player = true;
    pilot.transform = true;
    pilot.cooldown = true;
    assert!(player.has(&pilot));
    pilot.velocity = true;
    assert!(!player.has(&pilot));
}

#[test]
fn query_yields_matching_handles_in_order() {
    let mut world = World::new();
    world.spawn(new_player());
    world.spawn(new_enemy(&start(1, 2, 1_000_000, 0)));
    world.spawn(spawn_projectile(Vec3::new(0, 0, 0)));
    world.spawn(Entity::empty());
    world.spawn(new_enemy(&start(3, 4, 0, 1_000_000)));
    let mut enemies = Wanted::nothing();
    enemies.enemy = true;
    enemies.transform = true;
    assert_eq!(world.query(&enemies), vec![EntityId { index: 1 }, EntityId { index: 4 }]);
    let mut placed = Wanted::nothing();
    placed.transform = true;
    assert_eq!(
        world.query(&placed),
        vec![
            EntityId { index: 0 },
            EntityId { index: 1 },
            EntityId { index: 2 },
            EntityId { index: 4 }
        ]
    );
    let mut nobody = Wanted::nothing();
    nobody.player = true;
    nobody.enemy = true;
    assert_eq!(world.query(&nobody), Vec::<EntityId>::new());
    assert_eq!(world.query(&Wanted::nothing()).len(), 5);
}

#[test]
fn each_rule_names_the_records_it_asks_for() {
    assert_eq!(steered_records(), Wanted { player: true, transform: true, ..Wanted::nothing() });
    assert_eq!(
        gunner_records(),
        Wanted { player: true, transform: true, cooldown: true, ..Wanted::nothing() }
    );
    assert_eq!(
        flying_records(),
        Wanted { projectile: true, transform: true, velocity: true, ..Wanted::nothing() }
    );
    assert_eq!(patrolling_records(), Wanted { enemy: true, transform: true, ..Wanted::nothing() });
    assert_eq!(
        animated_records(),
        Wanted {
            animation_indices: true,
            animation_timer: true,
            sprite: true,
            ..Wanted::nothing()
        }
    );
}

#[test]
fn query_by_a_rule_yields_the_entities_it_acts_on() {
    let mut world = World::new();
    world.spawn(new_enemy(&start(1, 2, 1_000_000, 0)));
    world.spawn(new_player());
    world.spawn(spawn_projectile(Vec3::new(0, 0, 0)));
    let mut unarmed = new_player();
    unarmed.cooldown = None;
    world.spawn(unarmed);
    world.spawn(spawn_projectile(Vec3::new(5, 5, 0)));
    assert_eq!(world.query(&steered_records()), vec![EntityId { index: 1 }, EntityId { index: 3 }]);
    assert_eq!(world.query(&gunner_records()), vec![EntityId { index: 1 }]);
    assert_eq!(world.query(&flying_records()), vec![EntityId { index: 2 }, EntityId { index: 4 }]);
    assert_eq!(world.query(&patrolling_records()), vec![EntityId { index: 0 }]);
    assert_eq!(world.query(&animated_records()), vec![EntityId { index: 2 }, EntityId { index: 4 }]);
}

#[test]
fn query_of_an_empty_world_is_empty() {
    let world = World::new();
    assert_eq!(world.query(&Wanted::nothing()), Vec::<EntityId>::new());
}

#[test]
fn direction_is_bounded_by_one() {
    assert_eq!(Direction::new(1_000_000, -1_000_000), Some(Direction { x: 1_000_000, y: -1_000_000 }));
    assert_eq!(Direction::new(0, 0), Some(Direction { x: 0, y: 0 }));
    assert_eq!(Direction::new(1_000_001, 0), None);
    assert_eq!(Direction::new(0, 1_000_001), None);
    assert_eq!(Direction::new(-1_000_001, 0), None);
    assert_eq!(Direction::new(0, -1_000_001), None);
    assert_eq!(Direction::new(i32::MIN, 0), None);
    assert!(Direction { x: 5, y: -5 }.is_wf());
    assert!(!Direction { x: i32::MIN, y: 0 }.is_wf());
    assert!(!Direction { x: 0, y: i32::MAX }.is_wf());
}

#[test]
fn bounce_mirrors_the_horizontal_component() {
    let before = heading(600_000, 800_000);
    let after = before.bounce();
    assert_eq!(after, Direction { x: -600_000, y: 800_000 });
    assert_eq!(after.bounce(), before);
    assert_eq!(heading(0, 1).bounce(), Direction { x: 0, y: 1 });
}

#[test]
fn world_with_a_wild_heading_is_malformed() {
    let mut world = World::new();
    world.spawn(new_player());
    assert!(world.is_wf());
    let mut wild = Entity::empty();
    wild.enemy = Some(Enemy { direction: Direction { x: 2_000_000, y: 0 } });
    assert!(!wild.is_wf());
    world.spawn(wild);
    assert!(!world.is_wf());
    world.replace(EntityId { index: 1 }, Entity::empty());
    assert!(world.is_wf());
}

#[test]
fn player_starts_below_the_centre() {
    let player = new_player();
    let mut expected = Entity::empty();
    expected.player = true;
    expected.transform =
        Some(Transform { translation: Vec3 { x: 0, y: -300_000_000_000_000_000, z: 0 } });
    expected.cooldown = Some(Cooldown {
        timer: Timer { period: 600_000_000, mode: TimerMode::Once, elapsed: 0 },
    });
    assert_eq!(player, expected);
}

#[test]
fn enemy_starts_on_its_layer() {
    let enemy = new_enemy(&start(12, -7, 600_000, 800_000));
    let mut expected = Entity::empty();
    expected.transform = Some(Transform {
        translation: Vec3 {
            x: 12_000_000_000_000_000,
            y: -7_000_000_000_000_000,
            z: 10_000_000_000_000_000,
        },
    });
    expected.enemy = Some(Enemy { direction: Direction { x: 600_000, y: 800_000 } });
    assert_eq!(enemy, expected);
}

#[test]
fn projectile_starts_on_its_first_frame() {
    let projectile = spawn_projectile(Vec3::new(5, 6, 0));
    let mut expected = Entity::empty();
    expected.projectile = true;
    expected.transform = Some(Transform { translation: Vec3 { x: 5, y: 6, z: 0 } });
    expected.velocity = Some(Velocity { x: 0, y: 400_000_000, z: 0 });
    expected.animation_indices = Some(AnimationIndices { first: 1, last: 3 });
    expected.animation_timer = Some(AnimationTimer {
        timer: Timer { period: 100_000_000, mode: TimerMode::Repeating, elapsed: 0 },
    });
    expected.sprite = Some(SpriteFrame { index: 1 });
    assert_eq!(projectile, expected);
}

#[test]
fn roll_picks_a_place_in_half_the_extent() {
    assert_eq!(roll_coordinate(world_units(800), 0), 0);
    assert_eq!(roll_coordinate(world_units(800), 500_000), world_units(200));
    assert_eq!(roll_coordinate(world_units(800), 250_000), world_units(100));
    assert_eq!(roll_coordinate(world_units(800), 999_999), world_units(400) - 400_000_000_000);
    assert_eq!(roll_coordinate(world_units(600), 1), 300_000_000_000);
    assert_eq!(roll_coordinate(0, 999_999), 0);
    assert_eq!(roll_coordinate(1, 999_999), 0);
    assert_eq!(roll_coordinate(2_000_001, 999_999), 999_999);
    assert_eq!(roll_coordinate(3, 700_000), 1);
    assert_eq!(roll_coordinate(7, 500_000), 1);
    assert_eq!(roll_coordinate(8, 500_000), 2);
}

#[test]
fn roll_of_the_widest_window_does_not_overflow() {
    let expected: i128 = (i128::MAX / 2_000_000) * 999_999
        + ((i128::MAX % 2_000_000) * 999_999) / 2_000_000;
    assert_eq!(roll_coordinate(i128::MAX, 999_999), expected);
    assert!(2 * (expected / 2) < i128::MAX);
    assert_eq!(roll_coordinate(i128::MAX, 0), 0);
}

#[test]
fn roll_is_accepted_below_one_with_a_bounded_heading() {
    assert!(accepts_roll(&roll(0, 0, 0, 0)));
    assert!(accepts_roll(&roll(999_999, 999_999, -1_000_000, 1_000_000)));
    assert!(!accepts_roll(&roll(1_000_000, 0, 0, 0)));
    assert!(!accepts_roll(&roll(0, 1_000_000, 0, 0)));
    assert!(!accepts_roll(&roll(u32::MAX, 0, 0, 0)));
    assert!(!accepts_roll(&EnemyRoll { x: 0, y: 0, direction: Direction { x: 1_000_001, y: 0 } }));
}

#[test]
fn enemy_is_placed_by_its_roll() {
    let placed = place_enemy(&roll(250_000, 500_000, 600_000, 800_000), world_units(800), world_units(600));
    assert_eq!(
        placed,
        EnemyStart {
            x: world_units(100),
            y: world_units(150),
            direction: Direction { x: 600_000, y: 800_000 }
        }
    );
}

#[test]
fn setup_builds_the_player_and_five_enemies() {
    let rolls = five_rolls();
    let width = world_units(800);
    let height = world_units(600);
    let world = setup(width, height, &rolls).unwrap();
    assert_eq!(world.len(), 6);
    assert_eq!(world.entity(0), new_player());
    for index in 0..5 {
        assert_eq!(world.entity(index + 1), new_enemy(&place_enemy(&rolls[index], width, height)));
    }
    assert_eq!(world.entity(1), new_enemy(&start(0, 0, 1_000_000, 0)));
    assert_eq!(world.entity(2), new_enemy(&start(100, 150, 600_000, 800_000)));
    assert_eq!(world.entity(3), new_enemy(&start(200, 75, 0, 1_000_000)));
    assert!(world.is_wf());
    let mut players = Wanted::nothing();
    players.player = true;
    assert_eq!(world.query(&players), vec![EntityId { index: 0 }]);
    let mut enemies = Wanted::nothing();
    enemies.enemy = true;
    assert_eq!(world.query(&enemies).len(), 5);
}

#[test]
fn setup_places_every_enemy_in_the_upper_right_quarter() {
    let width = world_units(1280);
    let height = world_units(720);
    let world = setup(width, height, &five_rolls()).unwrap();
    for index in 1..6 {
        let place = world.entity(index).transform.unwrap().translation;
        assert!(0 <= place.x && 2 * place.x < width);
        assert!(0 <= place.y && 2 * place.y < height);
        assert_eq!(place.z, world_units(10));
    }
}

#[test]
fn setup_in_a_window_without_extent_puts_every_enemy_at_the_centre() {
    let world = setup(0, 0, &five_rolls()).unwrap();
    for index in 1..6 {
        let place = world.entity(index).transform.unwrap().translation;
        assert_eq!(place, Vec3::new(0, 0, world_units(10)));
    }
}

#[test]
fn setup_refuses_a_wrong_number_of_enemies() {
    let mut rolls = five_rolls();
    rolls.pop();
    assert!(setup(world_units(800), world_units(600), &rolls).is_none());
    let mut more = five_rolls();
    more.push(roll(0, 0, 1_000_000, 0));
    assert!(setup(world_units(800), world_units(600), &more).is_none());
    assert!(setup(world_units(800), world_units(600), &Vec::new()).is_none());
}

#[test]
fn setup_refuses_a_wild_heading() {
    let mut rolls = five_rolls();
    rolls[3].direction = Direction { x: 0, y: -1_000_001 };
    assert!(setup(world_units(800), world_units(600), &rolls).is_none());
}

#[test]
fn setup_refuses_a_roll_of_one() {
    let mut rolls = five_rolls();
    rolls[4].x = 1_000_000;
    assert!(setup(world_units(800), world_units(600), &rolls).is_none());
    let mut other = five_rolls();
    other[0].y = 1_000_000;
    assert!(setup(world_units(800), world_units(600), &other).is_none());
}

#[test]
fn setup_refuses_a_negative_extent() {
    assert!(setup(-1, world_units(600), &five_rolls()).is_none());
    assert!(setup(world_units(800), -1, &five_rolls()).is_none());
    assert!(setup(i128::MAX, i128::MAX, &five_rolls()).is_some());
}
