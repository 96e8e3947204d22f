use asteroids_core::collision_detection::{
    apply_collision_damage, apply_collision_event, find_damage_owner, find_health_owner,
    generate_collision_events, CollisionDamage, CollisionEvent,
};
use asteroids_core::despawn_routine::despawn_dead_entities;
use asteroids_core::health::Health;
use asteroids_core::movement::Transform;
use asteroids_core::physics::{detect_overlaps, Collider};
use asteroids_core::vector::Vec3;
use asteroids_core::world::{Category, Components, World};

fn unit(category: Category, x: i32, health: i32, damage: i32) -> Components {
    Components {
        category: Some(category),
        disposable: true,
        transform: Some(Transform::from_translation(Vec3::new(x, 0, 0))),
        collider: Some(Collider::ball(2)),
        health: Some(Health::new(health)),
        collision_damage: Some(CollisionDamage::new(damage)),
        ..Components::empty()
    }
}

fn health_of(world: &World, id: usize) -> i32 {
    world.get(id).unwrap().health.unwrap().value
}

fn strike(entity: usize, collided_entity: usize) -> CollisionEvent {
    CollisionEvent { entity, collided_entity }
}

#[test]
fn three_strikes_kill_the_player() {
    let mut world = World::new();
    let player = world.spawn(unit(Category::Spaceship, 0, 100, 70));
    let rock = world.spawn(unit(Category::Asteroid, 100, 80, 35));
    apply_collision_damage(&mut world, &vec![strike(player, rock)]);
    assert_eq!(health_of(&world, player), 65);
    apply_collision_damage(&mut world, &vec![strike(player, rock)]);
    assert_eq!(health_of(&world, player), 30);
    apply_collision_damage(&mut world, &vec![strike(player, rock)]);
    assert_eq!(health_of(&world, player), -5);
    assert!(world.get(player).unwrap().health.unwrap().is_dead());
    assert_eq!(health_of(&world, rock), 80);
    despawn_dead_entities(&mut world);
    assert!(!world.is_alive(player));
    assert!(world.is_alive(rock));
}

#[test]
fn damage_flows_one_way_per_event() {
    let mut world = World::new();
    let ship = world.spawn(unit(Category::Spaceship, 0, 100, 70));
    let rock = world.spawn(unit(Category::Asteroid, 1, 80, 35));
    apply_collision_event(&mut world, strike(rock, ship));
    assert_eq!(health_of(&world, rock), 10);
    assert_eq!(health_of(&world, ship), 100);
    apply_collision_damage(&mut world, &vec![strike(ship, rock), strike(rock, ship)]);
    assert_eq!(health_of(&world, ship), 65);
    assert_eq!(health_of(&world, rock), -60);
}

#[test]
fn no_events_change_nothing() {
    let mut world = World::new();
    let ship = world.spawn(unit(Category::Spaceship, 0, 100, 70));
    apply_collision_damage(&mut world, &vec![]);
    assert_eq!(health_of(&world, ship), 100);
}

#[test]
fn damage_saturates_at_the_bounds() {
    let mut world = World::new();
    let a = world.spawn(unit(Category::Spaceship, 0, i32::MIN + 1, 0));
    let b = world.spawn(unit(Category::Asteroid, 0, i32::MAX - 1, 5));
    let healer = world.spawn(unit(Category::Asteroid, 0, 1, -5));
    apply_collision_event(&mut world, strike(a, b));
    assert_eq!(health_of(&world, a), i32::MIN);
    apply_collision_event(&mut world, strike(b, healer));
    assert_eq!(health_of(&world, b), i32::MAX);
}

#[test]
fn a_struck_part_passes_the_damage_to_its_owner() {
    let mut world = World::new();
    let rock = world.spawn(unit(Category::Asteroid, 0, 80, 35));
    let shell = world.spawn_child(rock, Components { geometry: true, ..Components::empty() }).unwrap();
    let chip = world.spawn_child(shell, Components { geometry: true, ..Components::empty() }).unwrap();
    let missile = world.spawn(unit(Category::SpaceshipMissile, 0, 1, 40));
    assert_eq!(find_health_owner(&world, chip), Some(rock));
    assert_eq!(find_damage_owner(&world, chip), Some(rock));
    assert_eq!(find_health_owner(&world, rock), Some(rock));
    apply_collision_damage(&mut world, &vec![strike(chip, missile), strike(missile, chip)]);
    assert_eq!(health_of(&world, rock), 40);
    assert_eq!(health_of(&world, missile), -34);
    assert_eq!(world.get(chip).unwrap().health, None);
}

#[test]
fn a_body_does_not_damage_itself() {
    let mut world = World::new();
    let rock = world.spawn(unit(Category::Asteroid, 0, 80, 35));
    let part = world.spawn_child(rock, Components::empty()).unwrap();
    apply_collision_damage(&mut world, &vec![strike(part, rock), strike(rock, part), strike(rock, rock)]);
    assert_eq!(health_of(&world, rock), 80);
}

#[test]
fn stale_and_incomplete_entities_are_passed_over() {
    let mut world = World::new();
    let ship = world.spawn(unit(Category::Spaceship, 0, 100, 70));
    let gone = world.spawn(unit(Category::Asteroid, 0, 80, 35));
    let harmless = world.spawn(Components { health: Some(Health::new(5)), ..Components::empty() });
    let sturdy = world.spawn(Components {
        collision_damage: Some(CollisionDamage::new(9)),
        ..Components::empty()
    });
    world.despawn_recursive(gone);
    assert_eq!(find_health_owner(&world, gone), None);
    assert_eq!(find_health_owner(&world, 1000), None);
    assert_eq!(find_damage_owner(&world, harmless), None);
    assert_eq!(find_health_owner(&world, sturdy), None);
    apply_collision_damage(
        &mut world,
        &vec![
            strike(ship, gone),
            strike(gone, ship),
            strike(ship, 1000),
            strike(1000, ship),
            strike(ship, harmless),
            strike(sturdy, ship),
        ],
    );
    assert_eq!(health_of(&world, ship), 100);
    assert_eq!(health_of(&world, harmless), 5);
    apply_collision_event(&mut world, strike(harmless, sturdy));
    assert_eq!(health_of(&world, harmless), -4);
}

#[test]
fn two_of_a_kind_raise_no_event() {
    let mut world = World::new();
    world.spawn(unit(Category::Asteroid, 0, 80, 35));
    world.spawn(unit(Category::Asteroid, 1, 80, 35));
    detect_overlaps(&mut world);
    assert_eq!(world.overlaps(0), vec![1]);
    assert_eq!(generate_collision_events(&world), vec![]);
    apply_collision_damage(&mut world, &vec![]);
    assert_eq!(health_of(&world, 0), 80);
    assert_eq!(health_of(&world, 1), 80);
}

#[test]
fn each_entity_raises_at_most_one_event() {
    let mut world = World::new();
    let rock_a = world.spawn(unit(Category::Asteroid, 0, 80, 35));
    let ship = world.spawn(unit(Category::Spaceship, 1, 100, 70));
    let rock_b = world.spawn(unit(Category::Asteroid, 2, 80, 35));
    let missile = world.spawn(unit(Category::SpaceshipMissile, 3, 1, 40));
    detect_overlaps(&mut world);
    let events = generate_collision_events(&world);
    assert_eq!(
        events,
        vec![
            strike(ship, rock_a),
            strike(missile, rock_a),
            strike(rock_a, ship),
            strike(rock_b, ship),
        ]
    );
    for (i, e) in events.iter().enumerate() {
        for later in &events[i + 1..] {
            assert_ne!(e.entity, later.entity);
        }
        assert_ne!(
            world.get(e.entity).unwrap().category,
            world.get(e.collided_entity).unwrap().category
        );
    }
}

#[test]
fn the_first_entity_of_another_kind_is_reported() {
    let mut world = World::new();
    let rock_a = world.spawn(unit(Category::Asteroid, 0, 80, 35));
    let rock_b = world.spawn(unit(Category::Asteroid, 1, 80, 35));
    let part = world.spawn(Components {
        transform: Some(Transform::from_translation(Vec3::new(1, 0, 0))),
        collider: Some(Collider::ball(2)),
        ..Components::empty()
    });
    let ship = world.spawn(unit(Category::Spaceship, 2, 100, 70));
    detect_overlaps(&mut world);
    assert_eq!(world.overlaps(rock_a), vec![rock_b, part, ship]);
    let events = generate_collision_events(&world);
    assert_eq!(
        events,
        vec![strike(ship, rock_a), strike(rock_a, part), strike(rock_b, part)]
    );
}

#[test]
fn entities_without_a_kind_or_a_collider_raise_nothing() {
    let mut world = World::new();
    let ship = world.spawn(Components { collider: None, ..unit(Category::Spaceship, 0, 100, 70) });
    let loose = world.spawn(Components { category: None, ..unit(Category::Asteroid, 0, 80, 35) });
    world.set_overlaps(vec![vec![loose], vec![ship]]);
    assert_eq!(generate_collision_events(&world), vec![]);
}

#[test]
fn overlaps_with_removed_entities_raise_nothing() {
    let mut world = World::new();
    let ship = world.spawn(unit(Category::Spaceship, 0, 100, 70));
    let rock = world.spawn(unit(Category::Asteroid, 1, 80, 35));
    let other = world.spawn(unit(Category::Asteroid, 1, 80, 35));
    detect_overlaps(&mut world);
    world.despawn_recursive(rock);
    assert_eq!(world.overlaps(ship), vec![rock, other]);
    assert_eq!(
        generate_collision_events(&world),
        vec![strike(ship, other), strike(other, ship)]
    );
}

#[test]
fn collision_damage_and_health_hold_their_values() {
    assert_eq!(CollisionDamage::new(35).amount, 35);
    assert_eq!(CollisionDamage::default().amount, 0);
    assert_eq!(Health::new(-3).value, -3);
    assert_eq!(Health::default().value, 0);
    assert!(Health::new(0).is_dead());
    assert!(!Health::new(1).is_dead());
}
