use asteroids_core::health::Health;
use asteroids_core::world::{Category, Components, World};

fn with_health(value: i32) -> Components {
    Components { health: Some(Health::new(value)), ..Components::empty() }
}

#[test]
fn identifiers_ascend_from_zero() {
    let mut world = World::new();
    assert_eq!(world.len(), 0);
    assert_eq!(world.spawn(Components::empty()), 0);
    assert_eq!(world.spawn(with_health(3)), 1);
    assert_eq!(world.len(), 2);
    assert!(world.is_alive(0));
    assert!(world.is_alive(1));
    assert!(!world.is_alive(2));
    assert_eq!(world.get(1), Some(with_health(3)));
    assert_eq!(world.get(2), None);
    assert_eq!(world.parent(1), None);
}

#[test]
fn a_child_needs_a_live_parent() {
    let mut world = World::new();
    let root = world.spawn(Components::empty());
    let child = world.spawn_child(root, with_health(1));
    assert_eq!(child, Some(1));
    assert_eq!(world.parent(1), Some(root));
    assert_eq!(world.spawn_child(7, Components::empty()), None);
    world.despawn_recursive(root);
    assert_eq!(world.spawn_child(root, Components::empty()), None);
    assert_eq!(world.len(), 2);
}

#[test]
fn despawning_takes_the_descendants_along() {
    let mut world = World::new();
    let a = world.spawn(Components::empty());
    let b = world.spawn_child(a, Components::empty()).unwrap();
    let c = world.spawn_child(b, Components::empty()).unwrap();
    let d = world.spawn(Components::empty());
    let e = world.spawn_child(d, Components::empty()).unwrap();
    world.despawn_recursive(b);
    assert!(world.is_alive(a));
    assert!(!world.is_alive(b));
    assert!(!world.is_alive(c));
    assert!(world.is_alive(d));
    assert!(world.is_alive(e));
    assert_eq!(world.get(c), None);
}

#[test]
fn despawning_twice_is_the_same_as_once() {
    let mut world = World::new();
    let a = world.spawn(with_health(5));
    let b = world.spawn(with_health(6));
    world.despawn_recursive(a);
    let after_first: Vec<_> = (0..world.len()).map(|id| world.slot(id)).collect();
    world.despawn_recursive(a);
    world.despawn_recursive(99);
    let after_second: Vec<_> = (0..world.len()).map(|id| world.slot(id)).collect();
    assert_eq!(after_first, after_second);
    assert!(world.is_alive(b));
    assert_eq!(world.len(), 2);
}

#[test]
fn batch_removal_follows_the_marks_and_the_hierarchy() {
    let mut world = World::new();
    let a = world.spawn(Components::empty());
    let b = world.spawn_child(a, Components::empty()).unwrap();
    let c = world.spawn(Components::empty());
    let d = world.spawn(Components::empty());
    world.despawn_marked(&vec![true, false, false, true, true, true]);
    assert!(!world.is_alive(a));
    assert!(!world.is_alive(b));
    assert!(world.is_alive(c));
    assert!(!world.is_alive(d));
    world.despawn_marked(&vec![]);
    assert!(world.is_alive(c));
}

#[test]
fn detaching_keeps_the_entity() {
    let mut world = World::new();
    let a = world.spawn(Components::empty());
    let b = world.spawn_child(a, with_health(2)).unwrap();
    assert!(world.is_descendant(b, a));
    world.remove_parent(b);
    assert_eq!(world.parent(b), None);
    assert!(!world.is_descendant(b, a));
    world.despawn_recursive(a);
    assert_eq!(world.get(b), Some(with_health(2)));
    world.remove_parent(a);
    world.remove_parent(42);
    assert!(!world.is_alive(a));
}

#[test]
fn descent_follows_the_whole_chain() {
    let mut world = World::new();
    let a = world.spawn(Components::empty());
    let b = world.spawn_child(a, Components::empty()).unwrap();
    let c = world.spawn_child(b, Components::empty()).unwrap();
    assert!(world.is_descendant(c, a));
    assert!(world.is_descendant(c, b));
    assert!(!world.is_descendant(a, c));
    assert!(!world.is_descendant(a, a));
    assert!(!world.is_descendant(9, a));
}

#[test]
fn insert_replaces_components_of_live_entities_only() {
    let mut world = World::new();
    let a = world.spawn(with_health(1));
    let b = world.spawn_child(a, with_health(2)).unwrap();
    assert!(world.insert(b, with_health(9)));
    assert_eq!(world.get(b), Some(with_health(9)));
    assert_eq!(world.parent(b), Some(a));
    world.despawn_recursive(b);
    assert!(!world.insert(b, with_health(9)));
    assert!(!world.insert(17, with_health(9)));
    assert_eq!(world.get(b), None);
}

#[test]
fn the_single_member_of_a_kind() {
    let mut world = World::new();
    assert_eq!(world.single(Category::Spaceship), None);
    let ship = world.spawn(Components { category: Some(Category::Spaceship), ..Components::empty() });
    world.spawn(Components { category: Some(Category::Asteroid), ..Components::empty() });
    assert_eq!(world.single(Category::Spaceship), Some(ship));
    let second = world.spawn(Components { category: Some(Category::Spaceship), ..Components::empty() });
    assert_eq!(world.single(Category::Spaceship), None);
    world.despawn_recursive(ship);
    assert_eq!(world.single(Category::Spaceship), Some(second));
}

#[test]
fn a_kind_has_a_member_while_one_of_it_lives() {
    let mut world = World::new();
    assert!(!world.has(Category::Asteroid));
    let a = world.spawn(Components { category: Some(Category::Asteroid), ..Components::empty() });
    let b = world.spawn(Components { category: Some(Category::Asteroid), ..Components::empty() });
    world.spawn(Components::empty());
    assert!(world.has(Category::Asteroid));
    assert!(!world.has(Category::Spaceship));
    world.despawn_recursive(a);
    assert!(world.has(Category::Asteroid));
    world.despawn_recursive(b);
    assert!(!world.has(Category::Asteroid));
}

#[test]
fn an_overlap_table_must_cover_every_identifier() {
    let mut world = World::new();
    world.spawn(Components::empty());
    world.spawn(Components::empty());
    assert!(!world.set_overlaps(vec![vec![1]]));
    assert_eq!(world.overlaps(0), Vec::<usize>::new());
    assert!(world.set_overlaps(vec![vec![1], vec![0]]));
    assert_eq!(world.overlaps(0), vec![1]);
    assert_eq!(world.overlaps(1), vec![0]);
    assert_eq!(world.overlaps(2), Vec::<usize>::new());
    world.spawn(Components::empty());
    assert_eq!(world.overlaps(2), Vec::<usize>::new());
    assert_eq!(world.overlaps(0), vec![1]);
}
