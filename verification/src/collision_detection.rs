//! Contact damage: from overlaps to collision events to lost hit points.

use crate::health::Health;
use crate::vector::{clamp_i32, saturate};
use crate::world::{alive_at, slot_wf, Category, Components, EntityId, Slot, World};
use vstd::prelude::*;

verus! {

/// The hit points that an entity takes from whatever it strikes.
#[derive(Clone, Copy, PartialEq, Eq, Debug)]
pub struct CollisionDamage {
    pub amount: i32,
}

impl CollisionDamage {
    pub fn new(amount: i32) -> (d: CollisionDamage)
        ensures
            d.amount == amount,
    {
        CollisionDamage { amount }
    }
}

impl Default for CollisionDamage {
    fn default() -> (d: CollisionDamage)
        ensures
            d.amount == 0,
    {
        CollisionDamage { amount: 0 }
    }
}

/// Reports that `entity` was struck by `collided_entity`. The damage flows
/// one way, from the second to the first.
#[derive(Clone, Copy, PartialEq, Eq, Debug)]
pub struct CollisionEvent {
    pub entity: EntityId,
    pub collided_entity: EntityId,
}

/// Whether `id` is alive and of kind `category`.
pub open spec fn in_category(s: Seq<Slot>, id: int, category: Category) -> bool {
    alive_at(s, id) && s[id].components.category == Some(category)
}

/// Whether `id` is alive and not of kind `category`.
pub open spec fn foreign_to(s: Seq<Slot>, id: int, category: Category) -> bool {
    alive_at(s, id) && s[id].components.category != Some(category)
}

/// The first entry of `list`, from position `from` on, that is foreign to
/// `category`.
pub open spec fn first_foreign(
    s: Seq<Slot>,
    list: Seq<EntityId>,
    category: Category,
    from: int,
) -> Option<EntityId>
    decreases list.len() - from,
{
    if from < 0 || from >= list.len() {
        None
    } else if foreign_to(s, list[from] as int, category) {
        Some(list[from])
    } else {
        first_foreign(s, list, category, from + 1)
    }
}

/// The event that `id` raises as a member of `category`: it must be of that
/// kind and hold a collider, and the event names the first entity in its
/// overlap set that is of another kind.
pub open spec fn event_of(
    s: Seq<Slot>,
    overlaps: Seq<Seq<EntityId>>,
    category: Category,
    id: int,
) -> Option<CollisionEvent> {
    if in_category(s, id, category) && s[id].components.collider is Some && id < overlaps.len() {
        match first_foreign(s, overlaps[id], category, 0) {
            Some(other) => Some(CollisionEvent { entity: id as usize, collided_entity: other }),
            None => None,
        }
    } else {
        None
    }
}

/// The events raised by the members of `category` below `n`, in ascending
/// order of identifier.
pub open spec fn events_of_category(
    s: Seq<Slot>,
    overlaps: Seq<Seq<EntityId>>,
    category: Category,
    n: int,
) -> Seq<CollisionEvent>
    decreases n,
{
    if n <= 0 {
        Seq::empty()
    } else {
        let earlier = events_of_category(s, overlaps, category, n - 1);
        match event_of(s, overlaps, category, n - 1) {
            Some(e) => earlier.push(e),
            None => earlier,
        }
    }
}

/// All events of one frame: kind by kind, and within a kind in ascending
/// order of identifier.
pub open spec fn collision_events(s: Seq<Slot>, overlaps: Seq<Seq<EntityId>>) -> Seq<
    CollisionEvent,
> {
    events_of_category(s, overlaps, Category::Spaceship, s.len() as int) + events_of_category(
        s,
        overlaps,
        Category::SpaceshipMissile,
        s.len() as int,
    ) + events_of_category(s, overlaps, Category::Asteroid, s.len() as int) + events_of_category(
        s,
        overlaps,
        Category::AsteroidParticle,
        s.len() as int,
    )
}

/// What `first_foreign` finds is foreign to the category.
pub proof fn lemma_first_foreign(
    s: Seq<Slot>,
    list: Seq<EntityId>,
    category: Category,
    from: int,
)
    ensures
        first_foreign(s, list, category, from) matches Some(other) ==> foreign_to(
            s,
            other as int,
            category,
        ),
    decreases list.len() - from,
{
    if 0 <= from < list.len() && !foreign_to(s, list[from] as int, category) {
        lemma_first_foreign(s, list, category, from + 1);
    }
}

/// Every event of a category is raised by a member of it below `n` against
/// an entity foreign to it, and the raising entities ascend strictly.
pub proof fn lemma_events_of_category(
    s: Seq<Slot>,
    overlaps: Seq<Seq<EntityId>>,
    category: Category,
    n: int,
)
    requires
        n <= s.len() <= usize::MAX,
    ensures
        forall|k: int|
            0 <= k < events_of_category(s, overlaps, category, n).len() ==> {
                let e = #[trigger] events_of_category(s, overlaps, category, n)[k];
                &&& e.entity < n
                &&& in_category(s, e.entity as int, category)
                &&& foreign_to(s, e.collided_entity as int, category)
            },
        forall|i: int, j: int|
            0 <= i < j < events_of_category(s, overlaps, category, n).len() ==> (
            #[trigger] events_of_category(s, overlaps, category, n)[i]).entity < (
            #[trigger] events_of_category(s, overlaps, category, n)[j]).entity,
    decreases n,
{
    if n > 0 {
        lemma_events_of_category(s, overlaps, category, n - 1);
        let earlier = events_of_category(s, overlaps, category, n - 1);
        let all = events_of_category(s, overlaps, category, n);
        if let Some(e) = event_of(s, overlaps, category, n - 1) {
            lemma_first_foreign(s, overlaps[n - 1], category, 0);
            assert(all == earlier.push(e));
        } else {
            assert(all == earlier);
        }
        assert forall|k: int| 0 <= k < all.len() implies {
            let e = #[trigger] all[k];
            &&& e.entity < n
            &&& in_category(s, e.entity as int, category)
            &&& foreign_to(s, e.collided_entity as int, category)
        } by {
            if k < earlier.len() {
                assert(all[k] == earlier[k]);
            }
        }
        assert forall|i: int, j: int| 0 <= i < j < all.len() implies (#[trigger] all[i]).entity < (
        #[trigger] all[j]).entity by {
            assert(all[i] == earlier[i]);
            if j < earlier.len() {
                assert(all[j] == earlier[j]);
            }
        }
    }
}

/// The category that raised the `k`-th event of a frame.
pub open spec fn raising_category(s: Seq<Slot>, overlaps: Seq<Seq<EntityId>>, k: int) -> Category {
    let n = s.len() as int;
    let ships = events_of_category(s, overlaps, Category::Spaceship, n).len();
    let missiles = events_of_category(s, overlaps, Category::SpaceshipMissile, n).len();
    let asteroids = events_of_category(s, overlaps, Category::Asteroid, n).len();
    if k < ships {
        Category::Spaceship
    } else if k < ships + missiles {
        Category::SpaceshipMissile
    } else if k < ships + missiles + asteroids {
        Category::Asteroid
    } else {
        Category::AsteroidParticle
    }
}

/// No event is raised between two entities of one kind: the entity that
/// raises an event has a kind, and the entity it names is alive and not of
/// that kind.
pub proof fn lemma_no_event_within_a_category(s: Seq<Slot>, overlaps: Seq<Seq<EntityId>>, k: int)
    requires
        s.len() <= usize::MAX,
        0 <= k < collision_events(s, overlaps).len(),
    ensures
        ({
            let e = collision_events(s, overlaps)[k];
            let category = raising_category(s, overlaps, k);
            &&& in_category(s, e.entity as int, category)
            &&& foreign_to(s, e.collided_entity as int, category)
            &&& s[e.entity as int].components.category != s[e.collided_entity as int].components.category
        }),
{
    let n = s.len() as int;
    lemma_events_of_category(s, overlaps, Category::Spaceship, n);
    lemma_events_of_category(s, overlaps, Category::SpaceshipMissile, n);
    lemma_events_of_category(s, overlaps, Category::Asteroid, n);
    lemma_events_of_category(s, overlaps, Category::AsteroidParticle, n);
    let a = events_of_category(s, overlaps, Category::Spaceship, n);
    let b = events_of_category(s, overlaps, Category::SpaceshipMissile, n);
    let c = events_of_category(s, overlaps, Category::Asteroid, n);
    let d = events_of_category(s, overlaps, Category::AsteroidParticle, n);
    let all = collision_events(s, overlaps);
    assert(all == a + b + c + d);
    if k < a.len() {
        assert(all[k] == a[k]);
    } else if k < a.len() + b.len() {
        assert(all[k] == b[k - a.len()]);
    } else if k < a.len() + b.len() + c.len() {
        assert(all[k] == c[k - a.len() - b.len()]);
    } else {
        assert(all[k] == d[k - a.len() - b.len() - c.len()]);
    }
}

/// No entity raises more than one event in a frame.
pub proof fn lemma_one_event_per_entity(
    s: Seq<Slot>,
    overlaps: Seq<Seq<EntityId>>,
    i: int,
    j: int,
)
    requires
        s.len() <= usize::MAX,
        0 <= i < j < collision_events(s, overlaps).len(),
    ensures
        collision_events(s, overlaps)[i].entity != collision_events(s, overlaps)[j].entity,
{
    let n = s.len() as int;
    lemma_no_event_within_a_category(s, overlaps, i);
    lemma_no_event_within_a_category(s, overlaps, j);
    lemma_events_of_category(s, overlaps, Category::Spaceship, n);
    lemma_events_of_category(s, overlaps, Category::SpaceshipMissile, n);
    lemma_events_of_category(s, overlaps, Category::Asteroid, n);
    lemma_events_of_category(s, overlaps, Category::AsteroidParticle, n);
    let a = events_of_category(s, overlaps, Category::Spaceship, n);
    let b = events_of_category(s, overlaps, Category::SpaceshipMissile, n);
    let c = events_of_category(s, overlaps, Category::Asteroid, n);
    let d = events_of_category(s, overlaps, Category::AsteroidParticle, n);
    let all = collision_events(s, overlaps);
    assert(all == a + b + c + d);
    if raising_category(s, overlaps, i) == raising_category(s, overlaps, j) {
        if j < a.len() {
            assert(all[i] == a[i] && all[j] == a[j]);
        } else if j < a.len() + b.len() {
            assert(all[i] == b[i - a.len()] && all[j] == b[j - a.len()]);
        } else if j < a.len() + b.len() + c.len() {
            assert(all[i] == c[i - a.len() - b.len()] && all[j] == c[j - a.len() - b.len()]);
        } else {
            assert(all[i] == d[i - a.len() - b.len() - c.len()] && all[j] == d[j - a.len()
                - b.len() - c.len()]);
        }
    }
}

fn find_first_foreign(world: &World, list: &Vec<EntityId>, category: Category) -> (found: Option<
    EntityId,
>)
    ensures
        found == first_foreign(world@, list@, category, 0),
{
    let mut k: usize = 0;
    while k < list.len()
        invariant
            k <= list@.len(),
            first_foreign(world@, list@, category, 0) == first_foreign(
                world@,
                list@,
                category,
                k as int,
            ),
        decreases list@.len() - k,
    {
        let other: EntityId = list[k];
        if let Some(c) = world.get(other) {
            let same = match c.category {
                Some(kind) => kind == category,
                None => false,
            };
            if !same {
                return Some(other);
            }
        }
        k += 1;
    }
    None
}

fn collect_category(world: &World, category: Category, events: &mut Vec<CollisionEvent>)
    requires
        world.wf(),
    ensures
        final(events)@ == old(events)@ + events_of_category(
            world@,
            world.overlap_sets(),
            category,
            world@.len() as int,
        ),
{
    let n: usize = world.len();
    let mut id: usize = 0;
    while id < n
        invariant
            id <= n,
            n == world@.len(),
            world.wf(),
            events@ == old(events)@ + events_of_category(
                world@,
                world.overlap_sets(),
                category,
                id as int,
            ),
        decreases n - id,
    {
        if let Some(c) = world.get(id) {
            let member = match c.category {
                Some(kind) => kind == category,
                None => false,
            };
            if member && c.collider.is_some() {
                let list = world.overlaps(id);
                if let Some(other) = find_first_foreign(world, &list, category) {
                    events.push(CollisionEvent { entity: id, collided_entity: other });
                }
            }
        }
        assert(events@ =~= old(events)@ + events_of_category(
            world@,
            world.overlap_sets(),
            category,
            id + 1,
        ));
        id += 1;
    }
}

/// Turns the overlap sets into this frame's collision events. Each entity
/// with a kind and a collider raises at most one event, against the first
/// entity in its overlap set that is of another kind.
pub fn generate_collision_events(world: &World) -> (events: Vec<CollisionEvent>)
    requires
        world.wf(),
    ensures
        events@ == collision_events(world@, world.overlap_sets()),
{
    let mut events: Vec<CollisionEvent> = Vec::new();
    collect_category(world, Category::Spaceship, &mut events);
    collect_category(world, Category::SpaceshipMissile, &mut events);
    collect_category(world, Category::Asteroid, &mut events);
    collect_category(world, Category::AsteroidParticle, &mut events);
    assert(events@ =~= collision_events(world@, world.overlap_sets()));
    events
}

/// The nearest of `id` and its ancestors that has hit points.
pub open spec fn health_owner(s: Seq<Slot>, id: EntityId) -> Option<EntityId>
    decreases id,
{
    if !alive_at(s, id as int) {
        None
    } else if s[id as int].components.health is Some {
        Some(id)
    } else {
        match s[id as int].parent {
            Some(p) => if p < id {
                health_owner(s, p)
            } else {
                None
            },
            None => None,
        }
    }
}

/// The nearest of `id` and its ancestors that deals damage.
pub open spec fn damage_owner(s: Seq<Slot>, id: EntityId) -> Option<EntityId>
    decreases id,
{
    if !alive_at(s, id as int) {
        None
    } else if s[id as int].components.collision_damage is Some {
        Some(id)
    } else {
        match s[id as int].parent {
            Some(p) => if p < id {
                damage_owner(s, p)
            } else {
                None
            },
            None => None,
        }
    }
}

/// The owner of hit points is alive, holds hit points, and is `id` or one of
/// its ancestors.
pub proof fn lemma_health_owner(s: Seq<Slot>, id: EntityId)
    ensures
        health_owner(s, id) matches Some(t) ==> alive_at(s, t as int) && s[t as int].components.health
            is Some && t <= id,
    decreases id,
{
    if alive_at(s, id as int) && s[id as int].components.health is None {
        if let Some(p) = s[id as int].parent {
            if p < id {
                lemma_health_owner(s, p);
            }
        }
    }
}

/// The owner of damage is alive, deals damage, and is `id` or one of its
/// ancestors.
pub proof fn lemma_damage_owner(s: Seq<Slot>, id: EntityId)
    ensures
        damage_owner(s, id) matches Some(t) ==> alive_at(s, t as int)
            && s[t as int].components.collision_damage is Some && t <= id,
    decreases id,
{
    if alive_at(s, id as int) && s[id as int].components.collision_damage is None {
        if let Some(p) = s[id as int].parent {
            if p < id {
                lemma_damage_owner(s, p);
            }
        }
    }
}

/// `c` with `amount` taken from its hit points, saturating. The value may
/// go below zero.
pub open spec fn hurt(c: Components, amount: i32) -> Components {
    match c.health {
        Some(h) => Components {
            health: Some(Health { value: clamp_i32(h.value - amount) as i32 }),
            ..c
        },
        None => c,
    }
}

/// The arena after one event: the owner of the struck entity's hit points
/// loses what the owner of the striking entity's damage deals. Nothing
/// happens when either owner is missing, or when both are the same entity.
pub open spec fn after_event(s: Seq<Slot>, e: CollisionEvent) -> Seq<Slot> {
    match (health_owner(s, e.entity), damage_owner(s, e.collided_entity)) {
        (Some(target), Some(source)) => if target != source {
            s.update(
                target as int,
                Slot {
                    components: hurt(
                        s[target as int].components,
                        s[source as int].components.collision_damage->Some_0.amount,
                    ),
                    ..s[target as int]
                },
            )
        } else {
            s
        },
        _ => s,
    }
}

/// The arena after the events have been applied in order.
pub open spec fn after_events(s: Seq<Slot>, events: Seq<CollisionEvent>) -> Seq<Slot>
    decreases events.len(),
{
    if events.len() == 0 {
        s
    } else {
        after_event(after_events(s, events.drop_last()), events.last())
    }
}

/// A strike takes exactly the striker's damage from the hit points of the
/// struck entity, where the difference fits, and changes nothing else.
pub proof fn lemma_damage_is_exact(s: Seq<Slot>, e: CollisionEvent, target: EntityId, source: EntityId)
    requires
        health_owner(s, e.entity) == Some(target),
        damage_owner(s, e.collided_entity) == Some(source),
        target != source,
        i32::MIN <= s[target as int].components.health->Some_0.value
            - s[source as int].components.collision_damage->Some_0.amount <= i32::MAX,
    ensures
        after_event(s, e).len() == s.len(),
        after_event(s, e)[target as int].components.health == Some(
            Health {
                value: (s[target as int].components.health->Some_0.value
                    - s[source as int].components.collision_damage->Some_0.amount) as i32,
            },
        ),
        after_event(s, e)[target as int] == (Slot {
            components: Components {
                health: after_event(s, e)[target as int].components.health,
                ..s[target as int].components
            },
            ..s[target as int]
        }),
        forall|j: int| 0 <= j < s.len() && j != target ==> after_event(s, e)[j] == s[j],
{
    lemma_health_owner(s, e.entity);
    lemma_damage_owner(s, e.collided_entity);
}

/// Finds the nearest of `id` and its ancestors that has hit points.
pub fn find_health_owner(world: &World, id: EntityId) -> (owner: Option<EntityId>)
    requires
        world.wf(),
    ensures
        owner == health_owner(world@, id),
{
    let mut current: EntityId = id;
    loop
        invariant
            world.wf(),
            health_owner(world@, current) == health_owner(world@, id),
        decreases current,
    {
        match world.get(current) {
            None => {
                return None;
            },
            Some(c) => {
                if c.health.is_some() {
                    return Some(current);
                }
                match world.parent(current) {
                    None => {
                        return None;
                    },
                    Some(p) => {
                        assert(slot_wf(world@, current as int));
                        current = p;
                    },
                }
            },
        }
    }
}

/// Finds the nearest of `id` and its ancestors that deals damage.
pub fn find_damage_owner(world: &World, id: EntityId) -> (owner: Option<EntityId>)
    requires
        world.wf(),
    ensures
        owner == damage_owner(world@, id),
{
    let mut current: EntityId = id;
    loop
        invariant
            world.wf(),
            damage_owner(world@, current) == damage_owner(world@, id),
        decreases current,
    {
        match world.get(current) {
            None => {
                return None;
            },
            Some(c) => {
                if c.collision_damage.is_some() {
                    return Some(current);
                }
                match world.parent(current) {
                    None => {
                        return None;
                    },
                    Some(p) => {
                        assert(slot_wf(world@, current as int));
                        current = p;
                    },
                }
            },
        }
    }
}

/// Applies one event.
pub fn apply_collision_event(world: &mut World, event: CollisionEvent)
    requires
        old(world).wf(),
    ensures
        final(world).wf(),
        final(world).overlap_sets() == old(world).overlap_sets(),
        final(world)@ == after_event(old(world)@, event),
{
    let target = find_health_owner(world, event.entity);
    let source = find_damage_owner(world, event.collided_entity);
    proof {
        lemma_health_owner(world@, event.entity);
        lemma_damage_owner(world@, event.collided_entity);
    }
    if let (Some(t), Some(d)) = (target, source) {
        if t != d {
            if let (Some(struck), Some(striker)) = (world.get(t), world.get(d)) {
                if let (Some(h), Some(dmg)) = (struck.health, striker.collision_damage) {
                    let left: i32 = saturate(h.value as i64 - dmg.amount as i64);
                    world.insert(t, Components { health: Some(Health { value: left }), ..struck });
                }
            }
        }
    }
}

/// Applies the events in order. An event that names a dead or unknown
/// entity, or one without the needed parts among itself and its ancestors,
/// is passed over.
pub fn apply_collision_damage(world: &mut World, events: &Vec<CollisionEvent>)
    requires
        old(world).wf(),
    ensures
        final(world).wf(),
        final(world).overlap_sets() == old(world).overlap_sets(),
        final(world)@ == after_events(old(world)@, events@),
{
    let mut i: usize = 0;
    while i < events.len()
        invariant
            i <= events@.len(),
            world.wf(),
            world.overlap_sets() == old(world).overlap_sets(),
            world@ == after_events(old(world)@, events@.take(i as int)),
        decreases events@.len() - i,
    {
        apply_collision_event(world, events[i]);
        assert(events@.take(i + 1).drop_last() == events@.take(i as int));
        i += 1;
    }
    assert(events@.take(i as int) == events@);
}

} // verus!
