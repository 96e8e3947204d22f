use asteroids_core::asset_loader::SceneAssets;
use asteroids_core::asteroids::SpawnTimer;
use asteroids_core::collision_detection::CollisionDamage;
use asteroids_core::health::Health;
use asteroids_core::hud::{GameScore, GameScoreChangeEvent};
use asteroids_core::input::ControlInput;
use asteroids_core::movement::Transform;
use asteroids_core::physics::Collider;
use asteroids_core::schedule::{
    collision_stage, despawn_stage, entity_updates_stage, gameplay_runs, stage_order,
    user_input_stage, InGameSet, Simulation,
};
use asteroids_core::spaceship::SpaceshipMissileCooldownTimer;
use asteroids_core::state::GameState;
use asteroids_core::timer::RepeatingTimer;
use asteroids_core::vector::Vec3;
use asteroids_core::world::{Category, Components, World};

fn models() -> SceneAssets {
    SceneAssets { spaceship: vec![1, 2], asteroid: vec![10, 11], bullet: vec![20] }
}

fn north() -> Vec3 {
    Vec3::new(0, 0, 1000)
}

fn rock_at(x: i32, z: i32, health: i32) -> Components {
    Components {
        category: Some(Category::Asteroid),
        transform: Some(Transform::from_translation(Vec3::new(x, 0, z))),
        velocity: Some(Vec3::zero()),
        collider: Some(Collider::ball(2_500)),
        health: Some(Health::new(health)),
        collision_damage: Some(CollisionDamage::new(35)),
        ..Components::empty()
    }
}

fn started() -> Simulation {
    let mut sim = Simulation::new(models());
    sim.step(&ControlInput { start: true, ..ControlInput::none() }, 16, north());
    sim.step(&ControlInput::none(), 16, north());
    assert_eq!(sim.state, GameState::InGame);
    sim
}

fn ship_of(sim: &Simulation) -> usize {
    sim.world.single(Category::Spaceship).unwrap()
}

#[test]
fn removals_come_first_and_collisions_last() {
    assert_eq!(
        stage_order(),
        vec![
            InGameSet::DespawnEntities,
            InGameSet::UserInput,
            InGameSet::EntityUpdates,
            InGameSet::CollisionDetection,
        ]
    );
}

#[test]
fn gameplay_runs_in_game_only() {
    assert!(gameplay_runs(GameState::InGame));
    assert!(!gameplay_runs(GameState::Menu));
    assert!(!gameplay_runs(GameState::Paused));
    assert!(!gameplay_runs(GameState::GameOver));
}

#[test]
fn a_new_simulation_waits_in_the_menu() {
    let mut sim = Simulation::new(models());
    assert_eq!(sim.state, GameState::Menu);
    assert_eq!(sim.next_state, None);
    assert_eq!(sim.world.len(), 0);
    assert_eq!(sim.score, Some(GameScore { value: 0 }));
    assert_eq!(sim.spawn_timer, SpawnTimer::new(500));
    assert_eq!(sim.missile_timer.timer, RepeatingTimer::new(200));
    let held = ControlInput { fire: true, thrust_forward: true, pause: true, ..ControlInput::none() };
    for _ in 0..100 {
        sim.step(&held, 16, north());
    }
    assert_eq!(sim.state, GameState::Menu);
    assert_eq!(sim.world.len(), 0);
    assert_eq!(sim.spawn_timer.timer, RepeatingTimer::new(500));
    assert_eq!(sim.missile_timer.timer, RepeatingTimer::new(200));
}

#[test]
fn leaving_the_menu_launches_the_ship() {
    let mut sim = Simulation::new(models());
    sim.step(&ControlInput { start: true, ..ControlInput::none() }, 16, north());
    assert_eq!(sim.state, GameState::Menu);
    assert_eq!(sim.next_state, Some(GameState::InGame));
    assert_eq!(sim.world.len(), 0);
    sim.step(&ControlInput::none(), 16, north());
    assert_eq!(sim.state, GameState::InGame);
    assert_eq!(sim.next_state, None);
    let ship = ship_of(&sim);
    assert_eq!(sim.world.get(ship).unwrap().health, Some(Health::new(100)));
    assert_eq!(
        sim.world.get(ship).unwrap().transform,
        Some(Transform::from_translation(Vec3::new(0, 0, -20_000)))
    );
    assert_eq!(sim.spawn_timer.timer.elapsed, 16);
}

#[test]
fn pausing_freezes_the_world_and_a_second_press_resumes() {
    let mut sim = started();
    let pause = ControlInput { pause: true, ..ControlInput::none() };
    sim.step(&pause, 16, north());
    assert_eq!(sim.state, GameState::InGame);
    assert_eq!(sim.next_state, Some(GameState::Paused));
    sim.step(&ControlInput::none(), 16, north());
    assert_eq!(sim.state, GameState::Paused);
    let ship = ship_of(&sim);
    let frozen = sim.world.get(ship);
    let timer = sim.spawn_timer;
    let count = sim.world.len();
    let busy = ControlInput { fire: true, thrust_forward: true, turn_left: true, ..ControlInput::none() };
    for _ in 0..100 {
        sim.step(&busy, 16, north());
    }
    assert_eq!(sim.state, GameState::Paused);
    assert_eq!(sim.world.get(ship), frozen);
    assert_eq!(sim.world.len(), count);
    assert_eq!(sim.spawn_timer, timer);
    sim.step(&pause, 16, north());
    assert_eq!(sim.next_state, Some(GameState::InGame));
    sim.step(&ControlInput::none(), 16, north());
    assert_eq!(sim.state, GameState::InGame);
}

#[test]
fn asteroids_keep_coming_while_the_game_runs() {
    let mut sim = started();
    for _ in 0..125 {
        sim.step(&ControlInput::none(), 16, north());
    }
    let mut rocks = 0;
    for id in 0..sim.world.len() {
        if let Some(c) = sim.world.get(id) {
            if c.category == Some(Category::Asteroid) {
                rocks += 1;
            }
        }
    }
    assert!(rocks >= 3);
    assert_eq!(sim.state, GameState::InGame);
}

#[test]
fn a_fired_missile_moves_in_the_frame_it_appears_in() {
    let mut sim = started();
    let ship = ship_of(&sim);
    let fire = ControlInput { fire: true, ..ControlInput::none() };
    sim.step(&fire, 200, north());
    let missile = sim.world.single(Category::SpaceshipMissile).unwrap();
    assert!(missile > ship);
    let c = sim.world.get(missile).unwrap();
    assert_eq!(c.velocity, Some(Vec3::new(0, 0, 50)));
    assert_eq!(c.transform.unwrap().translation, Vec3::new(0, 0, -20_000 + 8_000 + 50 * 200));
    assert_eq!(sim.missile_timer.timer.elapsed, 0);
}

#[test]
fn the_stages_run_one_after_another() {
    let mut world = World::new();
    let assets = models();
    let ship = world.spawn(Components {
        category: Some(Category::Spaceship),
        disposable: true,
        transform: Some(Transform::from_translation(Vec3::new(0, 0, 0))),
        velocity: Some(Vec3::zero()),
        collider: Some(Collider::ball(4_000)),
        health: Some(Health::new(100)),
        collision_damage: Some(CollisionDamage::new(70)),
        ..Components::empty()
    });
    let rock = world.spawn(rock_at(5_000, 0, 80));
    let lost = world.spawn(Components { disposable: true, ..rock_at(200_000, 0, 80) });
    despawn_stage(&mut world);
    assert!(!world.is_alive(lost));
    let mut cooldown = SpaceshipMissileCooldownTimer::new(200);
    user_input_stage(&mut world, &ControlInput::none(), &mut cooldown, 16, &assets, north());
    assert_eq!(cooldown.timer.elapsed, 0);
    let mut spawn_timer = SpawnTimer::new(500);
    let mut score = Some(GameScore { value: 3 });
    let mut queue = vec![GameScoreChangeEvent { score_delta: 2, clear_score: false }];
    entity_updates_stage(&mut world, &mut spawn_timer, &mut score, &mut queue, 16, &assets);
    assert_eq!(score, Some(GameScore { value: 5 }));
    assert!(queue.is_empty());
    assert_eq!(spawn_timer.timer.elapsed, 16);
    collision_stage(&mut world);
    assert_eq!(world.overlaps(ship), vec![rock]);
    assert_eq!(world.get(ship).unwrap().health, Some(Health::new(65)));
    assert_eq!(world.get(rock).unwrap().health, Some(Health::new(10)));
}

#[test]
fn a_destroyed_asteroid_scores_and_leaves_its_fragments() {
    let mut sim = started();
    let rock = sim.world.spawn(rock_at(50_000, 0, 50_000, ));
    let piece = sim
        .world
        .spawn_child(
            rock,
            Components {
                geometry: true,
                transform: Some(Transform::from_translation(Vec3::new(50_000, 0, 50_000))),
                ..Components::empty()
            },
        )
        .unwrap();
    let mut dying = sim.world.get(rock).unwrap();
    dying.health = Some(Health::new(-5));
    sim.world.insert(rock, dying);
    sim.step(&ControlInput::none(), 16, north());
    assert!(!sim.world.is_alive(rock));
    let fragment = sim.world.get(piece).unwrap();
    assert_eq!(fragment.category, Some(Category::AsteroidParticle));
    assert_eq!(sim.world.parent(piece), None);
    assert_eq!(sim.score, Some(GameScore { value: 1 }));
    assert!(sim.score_events.is_empty());
    let moved_from = fragment.transform.unwrap().translation;
    let speed = fragment.velocity.unwrap();
    sim.step(&ControlInput::none(), 16, north());
    assert_eq!(
        sim.world.get(piece).unwrap().transform.unwrap().translation,
        moved_from.add_scaled(speed, 16)
    );
    assert_eq!(sim.score, Some(GameScore { value: 1 }));
}

#[test]
fn losing_the_ship_ends_the_round_and_the_next_one_starts_by_itself() {
    let mut sim = started();
    sim.score = Some(GameScore { value: 12 });
    let ship = ship_of(&sim);
    let rock = sim.world.spawn(rock_at(0, -20_000, 80));
    let camera = sim.world.spawn(Components::empty());
    let mut hurt = sim.world.get(ship).unwrap();
    hurt.health = Some(Health::new(30));
    sim.world.insert(ship, hurt);

    sim.step(&ControlInput::none(), 16, north());
    assert_eq!(sim.world.get(ship).unwrap().health, Some(Health::new(-5)));
    assert_eq!(sim.world.get(rock).unwrap().health, Some(Health::new(10)));
    assert_eq!(sim.state, GameState::InGame);
    assert_eq!(sim.next_state, None);

    sim.step(&ControlInput::none(), 16, north());
    assert!(!sim.world.is_alive(ship));
    assert_eq!(sim.state, GameState::InGame);
    assert_eq!(sim.next_state, Some(GameState::GameOver));

    sim.step(&ControlInput::none(), 16, north());
    assert_eq!(sim.state, GameState::GameOver);
    assert_eq!(sim.next_state, Some(GameState::InGame));
    assert!(!sim.world.is_alive(rock));
    assert!(sim.world.is_alive(camera));
    let fresh = ship_of(&sim);
    assert!(fresh > camera);
    assert_eq!(sim.world.get(fresh).unwrap().health, Some(Health::new(100)));
    assert_eq!(sim.score, Some(GameScore { value: 12 }));
    assert_eq!(
        sim.score_events,
        vec![GameScoreChangeEvent { score_delta: 0, clear_score: true }]
    );

    sim.step(&ControlInput::none(), 16, north());
    assert_eq!(sim.state, GameState::InGame);
    assert_eq!(sim.next_state, None);
    assert_eq!(sim.score, Some(GameScore { value: 0 }));
    assert!(sim.score_events.is_empty());
}

#[test]
fn a_lost_ship_outweighs_a_pause() {
    let mut sim = started();
    let ship = ship_of(&sim);
    sim.world.despawn_recursive(ship);
    sim.step(&ControlInput { pause: true, ..ControlInput::none() }, 16, north());
    assert_eq!(sim.next_state, Some(GameState::GameOver));
}

#[test]
fn a_requested_state_is_entered_at_the_start_of_the_next_frame() {
    let mut sim = Simulation::new(models());
    sim.next_state = Some(GameState::Menu);
    sim.enter_requested_state();
    assert_eq!(sim.state, GameState::Menu);
    assert_eq!(sim.world.len(), 0);
    sim.next_state = Some(GameState::GameOver);
    sim.enter_requested_state();
    assert_eq!(sim.state, GameState::GameOver);
    assert_eq!(sim.next_state, None);
    assert_eq!(sim.world.len(), 2);
    assert!(!sim.world.is_alive(0));
    assert_eq!(sim.world.single(Category::Spaceship), Some(1));
    assert_eq!(sim.score_events.len(), 1);
    sim.update(&ControlInput::none(), 16, north());
    assert_eq!(sim.state, GameState::GameOver);
    assert_eq!(sim.next_state, Some(GameState::InGame));
    assert_eq!(sim.world.get(1).unwrap().transform.unwrap().translation, Vec3::new(0, 0, -20_000));
}
