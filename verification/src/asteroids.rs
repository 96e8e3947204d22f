//! Asteroids: how they appear, spin, and break apart when they die.

use crate::asset_loader::SceneAssets;
use crate::collision_detection::CollisionDamage;
use crate::health::Health;
use crate::hud::GameScoreChangeEvent;
use crate::movement::{
    is_polar_sample, is_rect_sample, is_unit_sample, lemma_polar_sample, turn, turn_amount,
    turn_in, turned, DirVector, MovingObjectBundle, Transform,
};
use crate::physics::{map_alive, Collider};
use crate::timer::{ticked, RepeatingTimer};
use crate::vector::{
    difference, lemma_scaled_is_almost_as_long, lemma_scaled_is_no_longer, length_squared,
    scaled_to_length, Vec3,
};
use crate::world::{
    alive_at, condemned, has_ancestor, hierarchy_wf, lemma_without_marked_wf, root_slot, slot_wf,
    without_marked, Category, Components, EntityId, Slot, World,
};
use vstd::prelude::*;

verus! {

/// Speed of an asteroid and of each of its fragments.
pub const VELOCITY_SCALAR: i32 = 20;

/// Bounds of the distance from the origin at which an asteroid aims.
pub const VELOCITY_DEST_RADIUS_MIN: i32 = 0;

pub const VELOCITY_DEST_RADIUS_MAX: i32 = 50_000;

/// Bounds of the distance from the origin at which an asteroid appears.
pub const SPAWN_RADIUS_MIN: i32 = 81_000;

pub const SPAWN_RADIUS_MAX: i32 = 99_000;

/// Milliseconds between two asteroids.
pub const SPAWN_PERIOD: u32 = 500;

/// Spin of an asteroid, in angle units per millisecond.
pub const ROTATION_SPEED: u32 = 1_708_913;

pub const RADIUS: u32 = 2_500;

pub const FRAGMENT_RADIUS: u32 = 250;

pub const HEALTH: i32 = 80;

pub const COLLISION_DAMAGE: i32 = 35;

/// Where a spawner places what it spawns.
#[derive(Clone, Copy, PartialEq, Eq, Debug)]
pub enum SpawnArea {
    /// Anywhere in a horizontal rectangle: `x_min <= x < x_max` and
    /// `z_min <= z < z_max`.
    Rectangle { x_min: i32, x_max: i32, z_min: i32, z_max: i32 },
    /// In a random direction from the origin, at a distance drawn from
    /// `radius_min..radius_max`.
    Ring { radius_min: i32, radius_max: i32 },
}

/// Which way a spawner sends what it spawns. The speed is always
/// `VELOCITY_SCALAR`.
#[derive(Clone, Copy, PartialEq, Eq, Debug)]
pub enum Course {
    /// In a random direction.
    Random,
    /// Towards a random point at a distance from the origin drawn from
    /// `radius_min..radius_max`.
    Towards { radius_min: i32, radius_max: i32 },
}

/// A spawner: its countdown, and where and which way it spawns.
#[derive(Clone, Copy, PartialEq, Eq, Debug)]
pub struct SpawnTimer {
    pub timer: RepeatingTimer,
    pub area: SpawnArea,
    pub course: Course,
}

/// The spawner of asteroids: they appear on a ring around the play area
/// and head for a point near its centre.
pub open spec fn asteroid_spawner(period: u32) -> SpawnTimer {
    SpawnTimer {
        timer: RepeatingTimer { period, elapsed: 0, finished: false },
        area: SpawnArea::Ring { radius_min: SPAWN_RADIUS_MIN, radius_max: SPAWN_RADIUS_MAX },
        course: Course::Towards {
            radius_min: VELOCITY_DEST_RADIUS_MIN,
            radius_max: VELOCITY_DEST_RADIUS_MAX,
        },
    }
}

impl SpawnTimer {
    /// The spawner of asteroids, firing every `period` milliseconds.
    pub fn new(period: u32) -> (t: SpawnTimer)
        ensures
            t == asteroid_spawner(period),
    {
        SpawnTimer {
            timer: RepeatingTimer::new(period),
            area: SpawnArea::Ring { radius_min: SPAWN_RADIUS_MIN, radius_max: SPAWN_RADIUS_MAX },
            course: Course::Towards {
                radius_min: VELOCITY_DEST_RADIUS_MIN,
                radius_max: VELOCITY_DEST_RADIUS_MAX,
            },
        }
    }

    /// A spawner that fires every `period` milliseconds and spawns in
    /// `area` on `course`.
    pub fn with_policy(period: u32, area: SpawnArea, course: Course) -> (t: SpawnTimer)
        ensures
            t == (SpawnTimer {
                timer: RepeatingTimer { period, elapsed: 0, finished: false },
                area,
                course,
            }),
    {
        SpawnTimer { timer: RepeatingTimer::new(period), area, course }
    }
}

impl Default for SpawnTimer {
    /// The spawner of asteroids with period zero.
    fn default() -> (t: SpawnTimer)
        ensures
            t == asteroid_spawner(0),
    {
        SpawnTimer::new(0)
    }
}

/// Whether `area` has a point to draw.
pub open spec fn has_room(area: SpawnArea) -> bool {
    match area {
        SpawnArea::Rectangle { x_min, x_max, z_min, z_max } => x_min < x_max && z_min < z_max,
        SpawnArea::Ring { radius_min, radius_max } => radius_min < radius_max,
    }
}

/// Whether `course` has a velocity to draw.
pub open spec fn has_aim(course: Course) -> bool {
    match course {
        Course::Random => true,
        Course::Towards { radius_min, radius_max } => radius_min < radius_max,
    }
}

/// Whether `v` can be drawn as a position in `area`.
pub open spec fn is_spawn_position(area: SpawnArea, v: Vec3) -> bool {
    match area {
        SpawnArea::Rectangle { x_min, x_max, z_min, z_max } => is_rect_sample(
            v,
            x_min,
            x_max,
            z_min,
            z_max,
        ),
        SpawnArea::Ring { radius_min, radius_max } => is_polar_sample(v, radius_min, radius_max),
    }
}

/// The velocity that leads from `position` towards `destination`.
pub open spec fn seeking(position: Vec3, destination: Vec3) -> Vec3 {
    scaled_to_length(difference(destination, position), VELOCITY_SCALAR as int)
}

/// Whether `v` can be drawn as the velocity on `course` of a body that
/// starts at `position`.
pub open spec fn is_spawn_velocity(course: Course, position: Vec3, v: Vec3) -> bool {
    match course {
        Course::Random => is_unit_sample(v, VELOCITY_SCALAR),
        Course::Towards { radius_min, radius_max } => exists|destination: Vec3|
            is_polar_sample(destination, radius_min, radius_max) && v == #[trigger] seeking(
                position,
                destination,
            ),
    }
}

/// Draws a position in `area`; `None` when the area has no point.
pub fn draw_position(area: SpawnArea) -> (drawn: Option<Vec3>)
    ensures
        drawn is Some <==> has_room(area),
        drawn matches Some(v) ==> is_spawn_position(area, v),
{
    let drawn = match area {
        SpawnArea::Rectangle { x_min, x_max, z_min, z_max } => DirVector::rng_rect(
            x_min..x_max,
            z_min..z_max,
        ),
        SpawnArea::Ring { radius_min, radius_max } => DirVector::rng_polar_range(
            radius_min..radius_max,
        ),
    };
    match drawn {
        Some(d) => Some(d.value),
        None => None,
    }
}

/// The velocity that leads from `position` towards `destination`.
pub fn seek(position: Vec3, destination: Vec3) -> (v: Vec3)
    ensures
        v == seeking(position, destination),
{
    destination.minus(position).scale_to_length(VELOCITY_SCALAR)
}

/// Draws the velocity on `course` of a body that starts at `position`;
/// `None` when the course has no destination to draw.
pub fn draw_velocity(course: Course, position: Vec3) -> (drawn: Option<Vec3>)
    ensures
        drawn is Some <==> has_aim(course),
        drawn matches Some(v) ==> is_spawn_velocity(course, position, v),
{
    match course {
        Course::Random => Some(DirVector::rng_unit(Some(VELOCITY_SCALAR)).value),
        Course::Towards { radius_min, radius_max } => match DirVector::rng_polar_range(
            radius_min..radius_max,
        ) {
            Some(destination) => {
                let v = seek(position, destination.value);
                assert(is_polar_sample(destination.value, radius_min, radius_max) && v == seeking(
                    position,
                    destination.value,
                ));
                Some(v)
            },
            None => None,
        },
    }
}

/// What a new asteroid carries.
pub open spec fn asteroid_components(translation: Vec3, velocity: Vec3, scene: u64) -> Components {
    Components {
        category: Some(Category::Asteroid),
        disposable: false,
        geometry: false,
        scene: Some(scene),
        transform: Some(Transform { translation, yaw: 0, roll: 0 }),
        velocity: Some(velocity),
        acceleration: None,
        collider: Some(Collider { radius: RADIUS }),
        health: Some(Health { value: HEALTH }),
        collision_damage: Some(CollisionDamage { amount: COLLISION_DAMAGE }),
    }
}

/// What a new asteroid carries.
pub fn new_asteroid(translation: Vec3, velocity: Vec3, scene: u64) -> (c: Components)
    ensures
        c == asteroid_components(translation, velocity, scene),
{
    let body = MovingObjectBundle { velocity, collider: Collider::ball(RADIUS) };
    body.attach(
        Components {
            category: Some(Category::Asteroid),
            scene: Some(scene),
            transform: Some(Transform::from_translation(translation)),
            health: Some(Health::new(HEALTH)),
            collision_damage: Some(CollisionDamage::new(COLLISION_DAMAGE)),
            ..Components::empty()
        },
    )
}

/// Whether `c` is what an asteroid freshly spawned by `spawner` can carry,
/// given the models to choose from.
pub open spec fn is_new_asteroid(c: Components, spawner: SpawnTimer, models: Seq<u64>) -> bool {
    exists|translation: Vec3, velocity: Vec3, scene: u64|
        is_spawn_position(spawner.area, translation) && is_spawn_velocity(
            spawner.course,
            translation,
            velocity,
        ) && models.contains(scene) && c == #[trigger] asteroid_components(
            translation,
            velocity,
            scene,
        )
}

/// Where the spawner of asteroids puts a new asteroid, and how fast it
/// sends it. The asteroid appears in the horizontal plane, inside the outer
/// radius of the spawn ring and less than four units inside its inner
/// radius at most; it flies horizontally at `VELOCITY_SCALAR`, less what
/// rounding to whole units takes, which is under four units. The one
/// exception is the sample `(0, 0)`, which has no direction and puts the
/// asteroid at the origin.
pub proof fn lemma_new_asteroid(c: Components, period: u32, models: Seq<u64>)
    requires
        is_new_asteroid(c, asteroid_spawner(period), models),
    ensures
        c.transform is Some,
        c.velocity is Some,
        c.transform->Some_0.translation.y == 0,
        length_squared(c.transform->Some_0.translation) < SPAWN_RADIUS_MAX * SPAWN_RADIUS_MAX,
        length_squared(c.velocity->Some_0) <= VELOCITY_SCALAR * VELOCITY_SCALAR,
        c.transform->Some_0.translation != (Vec3 { x: 0, y: 0, z: 0 }) ==> {
            &&& (SPAWN_RADIUS_MIN - 4) * (SPAWN_RADIUS_MIN - 4) <= length_squared(
                c.transform->Some_0.translation,
            )
            &&& (VELOCITY_SCALAR - 4) * (VELOCITY_SCALAR - 4) <= length_squared(c.velocity->Some_0)
        },
{
    let spawner = asteroid_spawner(period);
    let (translation, velocity, scene) = choose|translation: Vec3, velocity: Vec3, scene: u64|
        is_spawn_position(spawner.area, translation) && is_spawn_velocity(
            spawner.course,
            translation,
            velocity,
        ) && models.contains(scene) && c == #[trigger] asteroid_components(
            translation,
            velocity,
            scene,
        );
    lemma_polar_sample(translation, SPAWN_RADIUS_MIN, SPAWN_RADIUS_MAX);
    let destination = choose|destination: Vec3|
        is_polar_sample(destination, VELOCITY_DEST_RADIUS_MIN, VELOCITY_DEST_RADIUS_MAX)
            && velocity == #[trigger] seeking(translation, destination);
    lemma_polar_sample(destination, VELOCITY_DEST_RADIUS_MIN, VELOCITY_DEST_RADIUS_MAX);
    let way = difference(destination, translation);
    lemma_scaled_is_no_longer(way, VELOCITY_SCALAR as int);
    if translation != (Vec3 { x: 0, y: 0, z: 0 }) {
        if length_squared(way) == 0 {
            assert(way.x == 0 && way.y == 0 && way.z == 0) by (nonlinear_arith)
                requires
                    way.x * way.x + way.y * way.y + way.z * way.z == 0,
            ;
            assert(destination == translation);
        }
        lemma_scaled_is_almost_as_long(way, VELOCITY_SCALAR as int);
    }
}

/// Whether the spawner spawns in a frame of `dt` milliseconds: its
/// countdown fires, it has a place and a way to send the asteroid, and
/// there is a model to draw it with.
pub open spec fn spawns(spawner: SpawnTimer, dt: u32, models: Seq<u64>) -> bool {
    &&& ticked(spawner.timer, dt).finished
    &&& models.len() > 0
    &&& has_room(spawner.area)
    &&& has_aim(spawner.course)
}

/// Whether `post` is a fair outcome of the asteroid spawner on `pre`: one
/// new asteroid when the spawner spawns in this frame, else no change.
pub open spec fn asteroid_spawned(
    pre: Seq<Slot>,
    post: Seq<Slot>,
    spawner: SpawnTimer,
    dt: u32,
    models: Seq<u64>,
) -> bool {
    if spawns(spawner, dt, models) {
        exists|c: Components|
            is_new_asteroid(c, spawner, models) && post == pre.push(#[trigger] root_slot(c))
    } else {
        post == pre
    }
}

/// The spawner after a frame of `dt` milliseconds.
pub open spec fn spawner_ticked(spawner: SpawnTimer, dt: u32) -> SpawnTimer {
    SpawnTimer { timer: ticked(spawner.timer, dt), ..spawner }
}

/// Advances the countdown by `dt` milliseconds and, when it fires, adds one
/// asteroid at a random place of the spawner's area, sent on the spawner's
/// course. Nothing is added without an asteroid model, or when the area or
/// the course has nothing to draw from.
pub fn spawn_asteroid(
    world: &mut World,
    spawn_timer: &mut SpawnTimer,
    dt: u32,
    scene_assets: &SceneAssets,
) -> (spawned: Option<EntityId>)
    requires
        old(world).wf(),
    ensures
        final(world).wf(),
        *final(spawn_timer) == spawner_ticked(*old(spawn_timer), dt),
        spawned is Some <==> spawns(*old(spawn_timer), dt, scene_assets.asteroid@),
        asteroid_spawned(
            old(world)@,
            final(world)@,
            *old(spawn_timer),
            dt,
            scene_assets.asteroid@,
        ),
        match spawned {
            Some(id) => {
                &&& id == old(world)@.len()
                &&& final(world).overlap_sets() == old(world).overlap_sets().push(Seq::empty())
            },
            None => final(world).overlap_sets() == old(world).overlap_sets(),
        },
{
    spawn_timer.timer.tick(dt);
    if !spawn_timer.timer.just_finished() {
        return None;
    }
    let scene: u64 = match scene_assets.get_random_asteroid() {
        Some(scene) => scene,
        None => {
            return None;
        },
    };
    let translation = match draw_position(spawn_timer.area) {
        Some(v) => v,
        None => {
            return None;
        },
    };
    let velocity = match draw_velocity(spawn_timer.course, translation) {
        Some(v) => v,
        None => {
            return None;
        },
    };
    let c = new_asteroid(translation, velocity, scene);
    let id = world.spawn(c);
    assert(is_new_asteroid(c, *old(spawn_timer), scene_assets.asteroid@) && world@ == old(
        world,
    )@.push(root_slot(c)));
    Some(id)
}

/// One entity after spinning for `dt` milliseconds: asteroids and their
/// fragments roll at `ROTATION_SPEED`, everything else stays.
pub open spec fn spun(c: Components, dt: u32) -> Components {
    match c.transform {
        Some(t) => if c.category == Some(Category::Asteroid) || c.category == Some(
            Category::AsteroidParticle,
        ) {
            Components {
                transform: Some(
                    Transform { roll: turned(t.roll, turn_amount(ROTATION_SPEED, dt), false), ..t },
                ),
                ..c
            }
        } else {
            c
        },
        None => c,
    }
}

/// One entity after spinning for `dt` milliseconds.
pub fn spin(c: Components, dt: u32) -> (r: Components)
    ensures
        r == spun(c, dt),
{
    let rolls = match c.category {
        Some(kind) => kind == Category::Asteroid || kind == Category::AsteroidParticle,
        None => false,
    };
    match c.transform {
        Some(t) => if rolls {
            Components {
                transform: Some(
                    Transform { roll: turn(t.roll, turn_in(ROTATION_SPEED, dt), false), ..t },
                ),
                ..c
            }
        } else {
            c
        },
        None => c,
    }
}

/// Spins every asteroid and every fragment for `dt` milliseconds.
pub fn rotate_asteroids(world: &mut World, dt: u32)
    requires
        old(world).wf(),
    ensures
        final(world).wf(),
        final(world).overlap_sets() == old(world).overlap_sets(),
        final(world)@ == map_alive(old(world)@, |c: Components| spun(c, dt)),
{
    let n: usize = world.len();
    let mut i: usize = 0;
    while i < n
        invariant
            i <= n,
            n == old(world)@.len(),
            world.wf(),
            world.overlap_sets() == old(world).overlap_sets(),
            world@.len() == n,
            forall|j: int|
                0 <= j < i ==> world@[j] == map_alive(old(world)@, |c: Components| spun(c, dt))[j],
            forall|j: int| i <= j < n ==> world@[j] == old(world)@[j],
        decreases n - i,
    {
        if let Some(c) = world.get(i) {
            world.insert(i, spin(c, dt));
        }
        i += 1;
    }
    assert(world@ =~= map_alive(old(world)@, |c: Components| spun(c, dt)));
}

/// Whether `id` explodes: it is alive and its mark is set.
pub open spec fn is_exploding(s: Seq<Slot>, marks: Seq<bool>, id: int) -> bool {
    alive_at(s, id) && id < marks.len() && marks[id]
}

/// Whether `id` hangs below an entity that explodes.
pub open spec fn below_explosion(s: Seq<Slot>, marks: Seq<bool>, id: int) -> bool
    decreases id,
{
    if 0 <= id < s.len() {
        match s[id].parent {
            Some(p) => p < id && (is_exploding(s, marks, p as int) || below_explosion(
                s,
                marks,
                p as int,
            )),
            None => false,
        }
    } else {
        false
    }
}

/// Whether `id` turns into a fragment: it is alive, carries geometry and
/// hangs below an entity that explodes.
pub open spec fn is_fragment_source(s: Seq<Slot>, marks: Seq<bool>, id: int) -> bool {
    alive_at(s, id) && s[id].components.geometry && below_explosion(s, marks, id)
}

/// What a fragment carries: what it had as part of the asteroid, and in
/// addition a velocity, a small collider, its own kind and the disposable
/// mark.
pub open spec fn fragment_of(c: Components, velocity: Vec3) -> Components {
    Components {
        category: Some(Category::AsteroidParticle),
        disposable: true,
        velocity: Some(velocity),
        collider: Some(Collider { radius: FRAGMENT_RADIUS }),
        ..c
    }
}

/// The arena after the fragments have been set free: each becomes a
/// parentless entity moving at the velocity listed under its identifier.
pub open spec fn shattered(s: Seq<Slot>, marks: Seq<bool>, velocities: Seq<Vec3>) -> Seq<Slot> {
    Seq::new(
        s.len(),
        |j: int|
            if is_fragment_source(s, marks, j) {
                root_slot(fragment_of(s[j].components, velocities[j]))
            } else {
                s[j]
            },
    )
}

/// The arena after the marked entities have exploded. Which entities are
/// fragments is judged on the arena as it stands before anything changes;
/// then all fragments are set free, and then every marked entity goes with
/// what is still attached to it.
pub open spec fn exploded(s: Seq<Slot>, marks: Seq<bool>, velocities: Seq<Vec3>) -> Seq<Slot> {
    without_marked(shattered(s, marks, velocities), marks)
}

/// In a well-formed arena nothing hangs below a dead entity.
pub proof fn lemma_nothing_below_the_dead(s: Seq<Slot>, id: int, anc: int)
    requires
        hierarchy_wf(s),
        0 <= anc < s.len(),
        !s[anc].alive,
    ensures
        !has_ancestor(s, id, anc),
    decreases id,
{
    if 0 <= id < s.len() {
        assert(slot_wf(s, id));
        if let Some(p) = s[id].parent {
            if p < id && p != anc {
                lemma_nothing_below_the_dead(s, p as int, anc);
            }
        }
    }
}

/// Setting fragments free leaves a well-formed arena.
pub proof fn lemma_shattered_wf(s: Seq<Slot>, marks: Seq<bool>, velocities: Seq<Vec3>)
    requires
        hierarchy_wf(s),
    ensures
        hierarchy_wf(shattered(s, marks, velocities)),
{
    let t = shattered(s, marks, velocities);
    assert forall|i: int| 0 <= i < t.len() implies #[trigger] slot_wf(t, i) by {
        assert(slot_wf(s, i));
    }
}

/// Whatever goes in an explosion exploded itself or hung below an entity
/// that did.
pub proof fn lemma_gone_was_exploding(
    s: Seq<Slot>,
    marks: Seq<bool>,
    velocities: Seq<Vec3>,
    id: int,
)
    requires
        condemned(shattered(s, marks, velocities), marks, id),
    ensures
        is_exploding(s, marks, id) || below_explosion(s, marks, id),
    decreases id,
{
    let t = shattered(s, marks, velocities);
    if !is_exploding(s, marks, id) {
        let p = t[id].parent->Some_0;
        assert(s[id].parent == Some(p));
        lemma_gone_was_exploding(s, marks, velocities, p as int);
    }
}

/// Whatever is alive and attached below an exploding entity goes with it.
pub proof fn lemma_attached_goes(s: Seq<Slot>, marks: Seq<bool>, id: int, anc: int)
    requires
        hierarchy_wf(s),
        is_exploding(s, marks, anc),
        has_ancestor(s, id, anc),
        alive_at(s, id),
    ensures
        condemned(s, marks, id),
    decreases id,
{
    assert(slot_wf(s, id));
    let p = s[id].parent->Some_0;
    if p != anc {
        lemma_attached_goes(s, marks, p as int, anc);
    }
    assert(condemned(s, marks, p as int));
}

/// What an explosion leaves, for any number of exploding entities, nested
/// or not. Every exploding entity is gone, with all that was still attached
/// to it once the fragments were free, and nothing hangs below it any more.
/// Every entity that carried geometry below an exploding entity, and does
/// not explode itself, has become an independent fragment with the velocity
/// listed for it; these are the only entities that changed and live.
/// Whatever was outside the exploding entities is untouched.
pub proof fn lemma_explosion(s: Seq<Slot>, marks: Seq<bool>, velocities: Seq<Vec3>)
    requires
        hierarchy_wf(s),
    ensures
        hierarchy_wf(exploded(s, marks, velocities)),
        exploded(s, marks, velocities).len() == s.len(),
        forall|a: int|
            is_exploding(s, marks, a) ==> !(#[trigger] exploded(s, marks, velocities)[a]).alive,
        forall|a: int, j: int|
            is_exploding(s, marks, a) && #[trigger] has_ancestor(
                shattered(s, marks, velocities),
                j,
                a,
            ) ==> !alive_at(exploded(s, marks, velocities), j),
        forall|a: int, j: int|
            is_exploding(s, marks, a) ==> !#[trigger] has_ancestor(
                exploded(s, marks, velocities),
                j,
                a,
            ),
        forall|j: int|
            is_fragment_source(s, marks, j) && !is_exploding(s, marks, j) ==> #[trigger] exploded(
                s,
                marks,
                velocities,
            )[j] == root_slot(fragment_of(s[j].components, velocities[j])),
        forall|j: int|
            0 <= j < s.len() && alive_at(exploded(s, marks, velocities), j) && #[trigger] exploded(
                s,
                marks,
                velocities,
            )[j] != s[j] ==> is_fragment_source(s, marks, j) && !is_exploding(s, marks, j),
        forall|j: int|
            0 <= j < s.len() && !is_exploding(s, marks, j) && !below_explosion(s, marks, j)
                ==> #[trigger] exploded(s, marks, velocities)[j] == s[j],
{
    let sh = shattered(s, marks, velocities);
    let t = exploded(s, marks, velocities);
    lemma_shattered_wf(s, marks, velocities);
    lemma_without_marked_wf(sh, marks);
    assert forall|a: int| is_exploding(s, marks, a) implies !(#[trigger] t[a]).alive by {
        assert(condemned(sh, marks, a));
    }
    assert forall|a: int, j: int|
        is_exploding(s, marks, a) && #[trigger] has_ancestor(sh, j, a) implies !alive_at(
        t,
        j,
    ) by {
        if alive_at(sh, j) {
            assert(is_exploding(sh, marks, a));
            lemma_attached_goes(sh, marks, j, a);
        }
    }
    assert forall|a: int, j: int| is_exploding(s, marks, a) implies !#[trigger] has_ancestor(
        t,
        j,
        a,
    ) by {
        assert(condemned(sh, marks, a));
        lemma_nothing_below_the_dead(t, j, a);
    }
    assert forall|j: int|
        0 <= j < s.len() && alive_at(t, j) && #[trigger] t[j] != s[j] implies is_fragment_source(
        s,
        marks,
        j,
    ) && !is_exploding(s, marks, j) by {
        assert(!condemned(sh, marks, j));
    }
    assert forall|j: int|
        0 <= j < s.len() && !is_exploding(s, marks, j) && !below_explosion(
            s,
            marks,
            j,
        ) implies #[trigger] t[j] == s[j] by {
        if condemned(sh, marks, j) {
            lemma_gone_was_exploding(s, marks, velocities, j);
        }
    }
}

/// What a fragment carries.
pub fn new_fragment(c: Components, velocity: Vec3) -> (r: Components)
    ensures
        r == fragment_of(c, velocity),
{
    let body = MovingObjectBundle { velocity, collider: Collider::ball(FRAGMENT_RADIUS) };
    body.attach(Components { category: Some(Category::AsteroidParticle), disposable: true, ..c })
}

/// Finds the entities that turn into fragments when the marked entities
/// explode. The list has one entry for each identifier of the world.
pub fn fragment_sources(world: &World, marks: &Vec<bool>) -> (sources: Vec<bool>)
    ensures
        sources@.len() == world@.len(),
        forall|j: int|
            0 <= j < world@.len() ==> #[trigger] sources@[j] == is_fragment_source(
                world@,
                marks@,
                j,
            ),
{
    let n: usize = world.len();
    let mut below: Vec<bool> = Vec::new();
    let mut sources: Vec<bool> = Vec::new();
    let mut i: usize = 0;
    while i < n
        invariant
            i <= n,
            n == world@.len(),
            below@.len() == i,
            sources@.len() == i,
            forall|j: int| 0 <= j < i ==> #[trigger] below@[j] == below_explosion(world@, marks@, j),
            forall|j: int|
                0 <= j < i ==> #[trigger] sources@[j] == is_fragment_source(world@, marks@, j),
        decreases n - i,
    {
        let slot = world.slot(i);
        let mut hangs = false;
        if let Some(p) = slot.parent {
            if p < i {
                hangs = (world.is_alive(p) && p < marks.len() && marks[p]) || below[p];
            }
        }
        below.push(hangs);
        sources.push(slot.alive && slot.components.geometry && hangs);
        i += 1;
    }
    sources
}

/// Explodes the marked entities in one batch, with the given velocities,
/// one listed for each identifier of the world; only those of fragments
/// are used. Marks beyond the last identifier, and marks on dead entities,
/// mean nothing. Returns whether the explosion took place: nothing changes
/// when the list of velocities has the wrong length.
pub fn explode_marked(world: &mut World, marks: &Vec<bool>, velocities: &Vec<Vec3>) -> (done: bool)
    requires
        old(world).wf(),
    ensures
        final(world).wf(),
        final(world).overlap_sets() == old(world).overlap_sets(),
        done == (velocities@.len() == old(world)@.len()),
        final(world)@ == (if done {
            exploded(old(world)@, marks@, velocities@)
        } else {
            old(world)@
        }),
{
    let n: usize = world.len();
    if velocities.len() != n {
        return false;
    }
    let sources = fragment_sources(world, marks);
    let mut j: usize = 0;
    while j < n
        invariant
            j <= n,
            n == old(world)@.len(),
            n == world@.len(),
            n == velocities@.len(),
            world.wf(),
            world.overlap_sets() == old(world).overlap_sets(),
            sources@.len() == n,
            forall|k: int|
                0 <= k < n ==> #[trigger] sources@[k] == is_fragment_source(
                    old(world)@,
                    marks@,
                    k,
                ),
            forall|k: int|
                0 <= k < j ==> world@[k] == shattered(old(world)@, marks@, velocities@)[k],
            forall|k: int| j <= k < n ==> world@[k] == old(world)@[k],
        decreases n - j,
    {
        if sources[j] {
            let c = world.slot(j).components;
            world.remove_parent(j);
            world.insert(j, new_fragment(c, velocities[j]));
        }
        j += 1;
    }
    assert(world@ =~= shattered(old(world)@, marks@, velocities@));
    world.despawn_marked(marks);
    true
}

/// Whether `velocities` lists a drawn velocity for each fragment and zero
/// for every other identifier.
pub open spec fn velocities_drawn(s: Seq<Slot>, marks: Seq<bool>, velocities: Seq<Vec3>) -> bool {
    &&& velocities.len() == s.len()
    &&& forall|j: int|
        0 <= j < s.len() ==> if is_fragment_source(s, marks, j) {
            is_unit_sample(#[trigger] velocities[j], VELOCITY_SCALAR)
        } else {
            velocities[j] == (Vec3 { x: 0, y: 0, z: 0 })
        }
}

/// Draws a velocity of length `VELOCITY_SCALAR` in a random direction for
/// each entity that turns into a fragment when the marked entities
/// explode.
pub fn draw_fragment_velocities(world: &World, marks: &Vec<bool>) -> (velocities: Vec<Vec3>)
    ensures
        velocities_drawn(world@, marks@, velocities@),
{
    let n: usize = world.len();
    let sources = fragment_sources(world, marks);
    let mut velocities: Vec<Vec3> = Vec::new();
    let mut i: usize = 0;
    while i < n
        invariant
            i <= n,
            n == world@.len(),
            sources@.len() == n,
            forall|k: int|
                0 <= k < n ==> #[trigger] sources@[k] == is_fragment_source(world@, marks@, k),
            velocities@.len() == i,
            forall|j: int|
                0 <= j < i ==> if is_fragment_source(world@, marks@, j) {
                    is_unit_sample(#[trigger] velocities@[j], VELOCITY_SCALAR)
                } else {
                    velocities@[j] == (Vec3 { x: 0, y: 0, z: 0 })
                },
        decreases n - i,
    {
        if sources[i] {
            velocities.push(DirVector::rng_unit(Some(VELOCITY_SCALAR)).value);
        } else {
            velocities.push(Vec3::zero());
        }
        i += 1;
    }
    velocities
}

/// Whether an entity with these parts is an asteroid that has died.
pub open spec fn is_dead_asteroid(c: Components) -> bool {
    &&& c.category == Some(Category::Asteroid)
    &&& c.health matches Some(h)
    &&& h.value <= 0
}

/// Whether an entity with these parts is an asteroid that has died.
pub fn dead_asteroid(c: &Components) -> (dead: bool)
    ensures
        dead == is_dead_asteroid(*c),
{
    let asteroid = match c.category {
        Some(kind) => kind == Category::Asteroid,
        None => false,
    };
    match c.health {
        Some(h) => asteroid && h.is_dead(),
        None => false,
    }
}

/// The marks that single out the asteroids that have died.
pub open spec fn dead_asteroids(s: Seq<Slot>) -> Seq<bool> {
    Seq::new(s.len(), |i: int| s[i].alive && is_dead_asteroid(s[i].components))
}

/// The event that rewards one destroyed asteroid.
pub open spec fn reward() -> GameScoreChangeEvent {
    GameScoreChangeEvent { score_delta: 1, clear_score: false }
}

/// One reward for each dead asteroid below `n`.
pub open spec fn rewards(s: Seq<Slot>, n: int) -> Seq<GameScoreChangeEvent>
    decreases n,
{
    if n <= 0 {
        Seq::empty()
    } else if alive_at(s, n - 1) && is_dead_asteroid(s[n - 1].components) {
        rewards(s, n - 1).push(reward())
    } else {
        rewards(s, n - 1)
    }
}

/// Every dead asteroid is rewarded once, whatever hangs below it.
pub proof fn lemma_one_reward_per_dead_asteroid(s: Seq<Slot>, n: int)
    requires
        0 <= n <= s.len(),
    ensures
        rewards(s, n).len() == Set::new(
            |a: int| 0 <= a < n && alive_at(s, a) && is_dead_asteroid(s[a].components),
        ).len(),
        Set::new(
            |a: int| 0 <= a < n && alive_at(s, a) && is_dead_asteroid(s[a].components),
        ).finite(),
        forall|k: int| 0 <= k < rewards(s, n).len() ==> rewards(s, n)[k] == reward(),
    decreases n,
{
    let dead = |m: int|
        Set::new(|a: int| 0 <= a < m && alive_at(s, a) && is_dead_asteroid(s[a].components));
    if n == 0 {
        assert(dead(0) =~= Set::<int>::empty());
    } else {
        lemma_one_reward_per_dead_asteroid(s, n - 1);
        if alive_at(s, n - 1) && is_dead_asteroid(s[n - 1].components) {
            assert(dead(n) =~= dead(n - 1).insert(n - 1));
        } else {
            assert(dead(n) =~= dead(n - 1));
        }
    }
}

/// Whether `post` and `queue_after` are a fair outcome of the explosions on
/// `pre` with the queue `queue_before`: every asteroid that is dead in
/// `pre` explodes, with some drawn velocities for the fragments, and is
/// rewarded once.
pub open spec fn asteroids_exploded(
    pre: Seq<Slot>,
    post: Seq<Slot>,
    queue_before: Seq<GameScoreChangeEvent>,
    queue_after: Seq<GameScoreChangeEvent>,
) -> bool {
    &&& queue_after == queue_before + rewards(pre, pre.len() as int)
    &&& exists|velocities: Seq<Vec3>|
        #[trigger] velocities_drawn(pre, dead_asteroids(pre), velocities) && post == exploded(
            pre,
            dead_asteroids(pre),
            velocities,
        )
}

/// Explodes every asteroid whose hit points are zero or less. Which
/// asteroids are dead, and which entities are their fragments, is judged on
/// the world as it stands when the call begins; the changes are then made
/// in one batch. Every entity that carries geometry below a dead asteroid
/// flies off in a random direction at `VELOCITY_SCALAR`, every dead
/// asteroid goes with what is still attached to it, and one reward is
/// queued for each of them.
pub fn explode_dead_asteroids(world: &mut World, score_events: &mut Vec<GameScoreChangeEvent>)
    requires
        old(world).wf(),
    ensures
        final(world).wf(),
        final(world).overlap_sets() == old(world).overlap_sets(),
        final(world)@.len() == old(world)@.len(),
        asteroids_exploded(old(world)@, final(world)@, old(score_events)@, final(score_events)@),
{
    let n: usize = world.len();
    let mut marks: Vec<bool> = Vec::new();
    let mut i: usize = 0;
    while i < n
        invariant
            i <= n,
            n == world@.len(),
            world@ == old(world)@,
            world.wf(),
            world.overlap_sets() == old(world).overlap_sets(),
            marks@ == dead_asteroids(world@).take(i as int),
            score_events@ == old(score_events)@ + rewards(world@, i as int),
        decreases n - i,
    {
        let slot = world.slot(i);
        let dead = slot.alive && dead_asteroid(&slot.components);
        marks.push(dead);
        if dead {
            score_events.push(GameScoreChangeEvent { score_delta: 1, clear_score: false });
        }
        assert(marks@ =~= dead_asteroids(world@).take(i + 1));
        assert(score_events@ =~= old(score_events)@ + rewards(world@, i + 1));
        i += 1;
    }
    assert(marks@ =~= dead_asteroids(world@));
    let velocities = draw_fragment_velocities(world, &marks);
    explode_marked(world, &marks, &velocities);
    assert(velocities_drawn(old(world)@, dead_asteroids(old(world)@), velocities@));
}

} // verus!
