use asteroids_core::asset_loader::SceneAssets;
use asteroids_core::collision_detection::CollisionDamage;
use asteroids_core::health::Health;
use asteroids_core::input::ControlInput;
use asteroids_core::movement::Transform;
use asteroids_core::physics::Collider;
use asteroids_core::spaceship::{
    check_spaceship, new_missile, new_spaceship, spaceship_movement_controls,
    spaceship_weapon_controls, spawn_spaceship, steer, SpaceshipMissileCooldownTimer,
    MISSILE_COLLISION_DAMAGE, MISSILE_COOLDOWN, MISSILE_FORWARD_SCALAR, MISSILE_HEALTH,
    MISSILE_RADIUS, MISSILE_SPEED, SPACESHIP_COLLISION_DAMAGE, SPACESHIP_HEALTH, SPACESHIP_RADIUS,
    SPACESHIP_ROLL_SPEED, SPACESHIP_ROTATION_SPEED, SPACESHIP_SPEED,
};
use asteroids_core::state::GameState;
use asteroids_core::timer::RepeatingTimer;
use asteroids_core::vector::Vec3;
use asteroids_core::world::{Category, Components, World};

fn models() -> SceneAssets {
    SceneAssets { spaceship: vec![1, 2, 3, 4], asteroid: vec![10, 11], bullet: vec![20] }
}

fn north() -> Vec3 {
    Vec3::new(0, 0, 1000)
}

#[test]
fn the_constants_of_the_ship_and_its_missiles() {
    assert_eq!(SPACESHIP_SPEED, 25);
    assert_eq!(SPACESHIP_ROTATION_SPEED, 1_708_913);
    assert_eq!(SPACESHIP_ROLL_SPEED, 1_708_913);
    assert_eq!(SPACESHIP_RADIUS, 4_000);
    assert_eq!(SPACESHIP_HEALTH, 100);
    assert_eq!(SPACESHIP_COLLISION_DAMAGE, 70);
    assert_eq!(MISSILE_SPEED, 50);
    assert_eq!(MISSILE_FORWARD_SCALAR, 8_000);
    assert_eq!(MISSILE_RADIUS, 200);
    assert_eq!(MISSILE_COOLDOWN, 200);
    assert_eq!(MISSILE_HEALTH, 1);
    assert_eq!(MISSILE_COLLISION_DAMAGE, 40);
    assert_eq!(SpaceshipMissileCooldownTimer::new(200).timer, RepeatingTimer::new(200));
    assert_eq!(SpaceshipMissileCooldownTimer::default().timer, RepeatingTimer::new(0));
}

#[test]
fn the_ship_appears_behind_the_origin() {
    let mut world = World::new();
    let assets = models();
    let ship = spawn_spaceship(&mut world, &assets).unwrap();
    let c = world.get(ship).unwrap();
    assert!(assets.spaceship.contains(&c.scene.unwrap()));
    assert_eq!(c, new_spaceship(c.scene.unwrap()));
    assert_eq!(c.category, Some(Category::Spaceship));
    assert_eq!(c.transform, Some(Transform::from_translation(Vec3::new(0, 0, -20_000))));
    assert_eq!(c.velocity, Some(Vec3::zero()));
    assert_eq!(c.collider, Some(Collider::ball(4_000)));
    assert_eq!(c.health, Some(Health::new(100)));
    assert_eq!(c.collision_damage, Some(CollisionDamage::new(70)));
    assert!(c.disposable);
    assert!(!c.geometry);
    assert_eq!(c.acceleration, None);
}

#[test]
fn without_a_ship_model_no_ship_appears() {
    let mut world = World::new();
    assert_eq!(spawn_spaceship(&mut world, &SceneAssets::new()), None);
    assert_eq!(world.len(), 0);
}

#[test]
fn thrust_moves_the_ship_along_its_heading() {
    let start = Transform::from_translation(Vec3::new(10, 0, -20_000));
    let forward = ControlInput { thrust_forward: true, ..ControlInput::none() };
    let back = ControlInput { thrust_back: true, ..ControlInput::none() };
    let both = ControlInput { thrust_forward: true, thrust_back: true, ..ControlInput::none() };
    assert_eq!(steer(start, &forward, 100, north()).translation, Vec3::new(10, 0, -17_500));
    assert_eq!(steer(start, &back, 100, north()).translation, Vec3::new(10, 0, -22_500));
    assert_eq!(steer(start, &both, 100, north()), start);
    assert_eq!(steer(start, &ControlInput::none(), 100, north()), start);
    assert_eq!(
        steer(start, &forward, 16, Vec3::new(600, 0, -800)).translation,
        Vec3::new(250, 0, -20_320)
    );
    assert_eq!(steer(start, &forward, 100, Vec3::zero()), start);
}

#[test]
fn turning_and_rolling_change_the_angles_only() {
    let start = Transform { translation: Vec3::new(1, 2, 3), yaw: 10, roll: 20 };
    let left = ControlInput { turn_left: true, ..ControlInput::none() };
    let right = ControlInput { turn_right: true, ..ControlInput::none() };
    let both = ControlInput { turn_left: true, turn_right: true, ..ControlInput::none() };
    let roll_right = ControlInput { roll_right: true, ..ControlInput::none() };
    let roll_left = ControlInput { roll_left: true, ..ControlInput::none() };
    assert_eq!(
        steer(start, &left, 1, north()),
        Transform { translation: Vec3::new(1, 2, 3), yaw: 1_708_923, roll: 20 }
    );
    assert_eq!(steer(start, &right, 1, north()).yaw, 0u32.wrapping_sub(1_708_903));
    assert_eq!(steer(start, &both, 1, north()), start);
    assert_eq!(steer(start, &roll_right, 2, north()).roll, 3_417_846);
    assert_eq!(steer(start, &roll_left, 2, north()).roll, 0u32.wrapping_sub(3_417_806));
    assert_eq!(steer(start, &roll_left, 2, north()).yaw, 10);
}

#[test]
fn thrust_saturates_over_a_very_long_frame() {
    let start = Transform::from_translation(Vec3::zero());
    let forward = ControlInput { thrust_forward: true, ..ControlInput::none() };
    assert_eq!(steer(start, &forward, u32::MAX, north()).translation, Vec3::new(0, 0, i32::MAX));
}

#[test]
fn the_controls_steer_the_one_ship() {
    let mut world = World::new();
    let rock = world.spawn(Components {
        category: Some(Category::Asteroid),
        transform: Some(Transform::from_translation(Vec3::new(5, 5, 5))),
        ..Components::empty()
    });
    let ship = spawn_spaceship(&mut world, &models()).unwrap();
    let input = ControlInput { thrust_forward: true, turn_left: true, ..ControlInput::none() };
    spaceship_movement_controls(&mut world, &input, 16, north());
    let t = world.get(ship).unwrap().transform.unwrap();
    assert_eq!(t.translation, Vec3::new(0, 0, -19_600));
    assert_eq!(t.yaw, 27_342_608);
    assert_eq!(t.roll, 0);
    assert_eq!(world.get(ship).unwrap().health, Some(Health::new(100)));
    assert_eq!(world.get(rock).unwrap().transform.unwrap().translation, Vec3::new(5, 5, 5));
    spawn_spaceship(&mut world, &models()).unwrap();
    spaceship_movement_controls(&mut world, &input, 16, north());
    assert_eq!(world.get(ship).unwrap().transform.unwrap(), t);
}

#[test]
fn a_missile_starts_ahead_of_the_ship() {
    let ship = Transform { translation: Vec3::new(100, 0, -20_000), yaw: 77, roll: 5 };
    let c = new_missile(ship, north(), 20);
    assert_eq!(c.category, Some(Category::SpaceshipMissile));
    assert_eq!(c.transform, Some(Transform::from_translation(Vec3::new(100, 0, -12_000))));
    assert_eq!(c.velocity, Some(Vec3::new(0, 0, 50)));
    assert_eq!(c.collider, Some(Collider::ball(200)));
    assert_eq!(c.health, Some(Health::new(1)));
    assert_eq!(c.collision_damage, Some(CollisionDamage::new(40)));
    assert_eq!(c.scene, Some(20));
    assert!(c.disposable);
    let slanted = new_missile(ship, Vec3::new(-3, 0, 4), 20);
    assert_eq!(slanted.transform.unwrap().translation, Vec3::new(-4_700, 0, -13_600));
    assert_eq!(slanted.velocity, Some(Vec3::new(-30, 0, 40)));
}

#[test]
fn the_weapon_fires_when_held_and_cooled_down() {
    let mut world = World::new();
    let assets = models();
    let ship = spawn_spaceship(&mut world, &assets).unwrap();
    let mut timer = SpaceshipMissileCooldownTimer::new(MISSILE_COOLDOWN);
    let fire = ControlInput { fire: true, ..ControlInput::none() };
    let idle = ControlInput::none();
    assert_eq!(spaceship_weapon_controls(&mut world, &idle, &mut timer, 500, &assets, north()), None);
    assert_eq!(timer.timer.elapsed, 0);
    assert_eq!(spaceship_weapon_controls(&mut world, &fire, &mut timer, 199, &assets, north()), None);
    assert_eq!(timer.timer.elapsed, 199);
    let missile = spaceship_weapon_controls(&mut world, &fire, &mut timer, 1, &assets, north()).unwrap();
    assert_eq!(missile, ship + 1);
    let ship_at = world.get(ship).unwrap().transform.unwrap();
    assert_eq!(world.get(missile), Some(new_missile(ship_at, north(), 20)));
    assert_eq!(spaceship_weapon_controls(&mut world, &fire, &mut timer, 16, &assets, north()), None);
    assert_eq!(world.len(), 2);
}

#[test]
fn nothing_is_fired_without_a_ship_or_a_bullet_model() {
    let mut timer = SpaceshipMissileCooldownTimer::new(0);
    let fire = ControlInput { fire: true, ..ControlInput::none() };
    let mut empty = World::new();
    assert_eq!(spaceship_weapon_controls(&mut empty, &fire, &mut timer, 1, &models(), north()), None);
    let mut world = World::new();
    spawn_spaceship(&mut world, &models()).unwrap();
    let no_bullets = SceneAssets { spaceship: vec![1], asteroid: vec![], bullet: vec![] };
    assert_eq!(spaceship_weapon_controls(&mut world, &fire, &mut timer, 1, &no_bullets, north()), None);
    let unplaced = world.spawn(Components { category: Some(Category::Spaceship), ..Components::empty() });
    world.despawn_recursive(0);
    assert_eq!(world.single(Category::Spaceship), Some(unplaced));
    assert_eq!(spaceship_weapon_controls(&mut world, &fire, &mut timer, 1, &models(), north()), None);
    assert_eq!(world.len(), 2);
}

#[test]
fn the_game_is_over_when_no_ship_lives() {
    let mut world = World::new();
    assert_eq!(check_spaceship(&world), Some(GameState::GameOver));
    world.spawn(Components { category: Some(Category::Asteroid), ..Components::empty() });
    assert_eq!(check_spaceship(&world), Some(GameState::GameOver));
    let ship = spawn_spaceship(&mut world, &models()).unwrap();
    assert_eq!(check_spaceship(&world), None);
    let second = spawn_spaceship(&mut world, &models()).unwrap();
    assert_eq!(check_spaceship(&world), None);
    world.despawn_recursive(ship);
    assert_eq!(check_spaceship(&world), None);
    world.despawn_recursive(second);
    assert_eq!(check_spaceship(&world), Some(GameState::GameOver));
}

#[test]
fn a_dead_ship_still_exists_until_it_is_removed() {
    let mut world = World::new();
    let ship = spawn_spaceship(&mut world, &models()).unwrap();
    let mut hurt = world.get(ship).unwrap();
    hurt.health = Some(Health::new(-5));
    world.insert(ship, hurt);
    assert_eq!(check_spaceship(&world), None);
}
