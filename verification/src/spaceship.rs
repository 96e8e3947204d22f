//! The player's ship: how it appears, steers and fires.

use crate::asset_loader::SceneAssets;
use crate::collision_detection::CollisionDamage;
use crate::health::Health;
use crate::input::ControlInput;
use crate::movement::{turn, turn_amount, turn_in, turned, MovingObjectBundle, Transform};
use crate::physics::Collider;
use crate::state::GameState;
use crate::timer::{ticked, RepeatingTimer};
use crate::vector::{clamp_i32, saturate, scaled_to_length, sum, Vec3};
use crate::world::{
    has_member, root_slot, single_member, Category, Components, EntityId, Slot, World,
};
use vstd::prelude::*;

verus! {

/// Where the ship appears.
pub open spec fn spaceship_spawn() -> Vec3 {
    Vec3 { x: 0, y: 0, z: (-20_000i32) }
}

pub const SPACESHIP_SPEED: i32 = 25;

/// Turning rate about the vertical axis, in angle units per millisecond.
pub const SPACESHIP_ROTATION_SPEED: u32 = 1_708_913;

/// Rolling rate, in angle units per millisecond.
pub const SPACESHIP_ROLL_SPEED: u32 = 1_708_913;

pub const SPACESHIP_RADIUS: u32 = 4_000;

pub const SPACESHIP_HEALTH: i32 = 100;

pub const SPACESHIP_COLLISION_DAMAGE: i32 = 70;

pub const MISSILE_SPEED: i32 = 50;

/// How far ahead of the ship a missile appears.
pub const MISSILE_FORWARD_SCALAR: i32 = 8_000;

pub const MISSILE_RADIUS: u32 = 200;

/// Milliseconds between two missiles.
pub const MISSILE_COOLDOWN: u32 = 200;

pub const MISSILE_HEALTH: i32 = 1;

pub const MISSILE_COLLISION_DAMAGE: i32 = 40;

/// The countdown to the next missile. It runs only while the fire control
/// is held.
#[derive(Clone, Copy, PartialEq, Eq, Debug)]
pub struct SpaceshipMissileCooldownTimer {
    pub timer: RepeatingTimer,
}

impl SpaceshipMissileCooldownTimer {
    /// A countdown that fires every `period` milliseconds.
    pub fn new(period: u32) -> (t: SpaceshipMissileCooldownTimer)
        ensures
            t.timer == (RepeatingTimer { period, elapsed: 0, finished: false }),
    {
        SpaceshipMissileCooldownTimer { timer: RepeatingTimer::new(period) }
    }
}

impl Default for SpaceshipMissileCooldownTimer {
    fn default() -> (t: SpaceshipMissileCooldownTimer)
        ensures
            t.timer == (RepeatingTimer { period: 0, elapsed: 0, finished: false }),
    {
        SpaceshipMissileCooldownTimer { timer: RepeatingTimer::new(0) }
    }
}

/// What a new ship carries.
pub open spec fn spaceship_components(scene: u64) -> Components {
    Components {
        category: Some(Category::Spaceship),
        disposable: true,
        geometry: false,
        scene: Some(scene),
        transform: Some(Transform { translation: spaceship_spawn(), yaw: 0, roll: 0 }),
        velocity: Some(Vec3 { x: 0, y: 0, z: 0 }),
        acceleration: None,
        collider: Some(Collider { radius: SPACESHIP_RADIUS }),
        health: Some(Health { value: SPACESHIP_HEALTH }),
        collision_damage: Some(CollisionDamage { amount: SPACESHIP_COLLISION_DAMAGE }),
    }
}

/// What a new ship carries.
pub fn new_spaceship(scene: u64) -> (c: Components)
    ensures
        c == spaceship_components(scene),
{
    let body = MovingObjectBundle {
        velocity: Vec3::zero(),
        collider: Collider::ball(SPACESHIP_RADIUS),
    };
    body.attach(
        Components {
            category: Some(Category::Spaceship),
            disposable: true,
            scene: Some(scene),
            transform: Some(Transform::from_translation(Vec3::new(0, 0, -20_000))),
            health: Some(Health::new(SPACESHIP_HEALTH)),
            collision_damage: Some(CollisionDamage::new(SPACESHIP_COLLISION_DAMAGE)),
            ..Components::empty()
        },
    )
}

/// Whether `post` is a fair outcome of spawning the ship on `pre`: one new
/// ship when there is a model for it, else no change.
pub open spec fn spaceship_spawned(pre: Seq<Slot>, post: Seq<Slot>, models: Seq<u64>) -> bool {
    if models.len() > 0 {
        exists|scene: u64|
            models.contains(scene) && post == pre.push(
                root_slot(#[trigger] spaceship_components(scene)),
            )
    } else {
        post == pre
    }
}

/// Adds the player's ship with a model picked at random. Without a
/// spaceship model nothing is added.
pub fn spawn_spaceship(world: &mut World, scene_assets: &SceneAssets) -> (spawned: Option<EntityId>)
    requires
        old(world).wf(),
    ensures
        final(world).wf(),
        spawned is Some <==> scene_assets.spaceship@.len() > 0,
        spaceship_spawned(old(world)@, final(world)@, scene_assets.spaceship@),
        match spawned {
            Some(id) => {
                &&& id == old(world)@.len()
                &&& final(world).overlap_sets() == old(world).overlap_sets().push(Seq::empty())
            },
            None => final(world)@ == old(world)@ && final(world).overlap_sets() == old(
                world,
            ).overlap_sets(),
        },
{
    match scene_assets.get_random_spaceship() {
        Some(scene) => {
            let id = world.spawn(new_spaceship(scene));
            assert(scene_assets.spaceship@.contains(scene) && world@ == old(world)@.push(
                root_slot(spaceship_components(scene)),
            ));
            Some(id)
        },
        None => None,
    }
}

/// The value of a pair of opposed controls: 1, -1, or 0 when both or none
/// are active.
pub open spec fn axis(positive: bool, negative: bool) -> int {
    (if positive {
        1int
    } else {
        0int
    }) - (if negative {
        1int
    } else {
        0int
    })
}

/// `angle` after a pair of opposed controls has acted on it for `dt`
/// milliseconds at `speed`.
pub open spec fn steered_angle(angle: u32, positive: bool, negative: bool, speed: u32, dt: u32) -> u32 {
    if positive == negative {
        angle
    } else {
        turned(angle, turn_amount(speed, dt), negative)
    }
}

/// The distance that the thrust controls move the ship in `dt`
/// milliseconds, negative for backwards.
pub open spec fn thrust(input: ControlInput, dt: u32) -> int {
    clamp_i32(axis(input.thrust_forward, input.thrust_back) * SPACESHIP_SPEED * dt)
}

/// The ship's transform after the controls have acted on it for `dt`
/// milliseconds. `heading` points where the nose points; its length does
/// not matter.
pub open spec fn steered(t: Transform, input: ControlInput, dt: u32, heading: Vec3) -> Transform {
    Transform {
        translation: sum(t.translation, scaled_to_length(heading, thrust(input, dt))),
        yaw: steered_angle(
            t.yaw,
            input.turn_left,
            input.turn_right,
            SPACESHIP_ROTATION_SPEED,
            dt,
        ),
        roll: steered_angle(t.roll, input.roll_right, input.roll_left, SPACESHIP_ROLL_SPEED, dt),
    }
}

fn steer_angle(angle: u32, positive: bool, negative: bool, speed: u32, dt: u32) -> (r: u32)
    ensures
        r == steered_angle(angle, positive, negative, speed, dt),
{
    if positive == negative {
        angle
    } else {
        turn(angle, turn_in(speed, dt), negative)
    }
}

/// The ship's transform after the controls have acted on it.
pub fn steer(t: Transform, input: &ControlInput, dt: u32, heading: Vec3) -> (r: Transform)
    ensures
        r == steered(t, *input, dt, heading),
{
    let direction: i64 = if input.thrust_forward == input.thrust_back {
        0
    } else if input.thrust_forward {
        1
    } else {
        -1
    };
    assert(direction * SPACESHIP_SPEED * dt == axis(input.thrust_forward, input.thrust_back)
        * SPACESHIP_SPEED * dt);
    assert(-25 * 0xffff_ffff <= direction * SPACESHIP_SPEED * dt <= 25 * 0xffff_ffff)
        by (nonlinear_arith)
        requires
            -1 <= direction <= 1,
            SPACESHIP_SPEED == 25,
            0 <= dt <= 0xffff_ffff,
    ;
    let distance: i32 = saturate(direction * (SPACESHIP_SPEED as i64) * (dt as i64));
    Transform {
        translation: t.translation.plus(heading.scale_to_length(distance)),
        yaw: steer_angle(t.yaw, input.turn_left, input.turn_right, SPACESHIP_ROTATION_SPEED, dt),
        roll: steer_angle(t.roll, input.roll_right, input.roll_left, SPACESHIP_ROLL_SPEED, dt),
    }
}

/// The arena after the controls have acted on the one ship. Without exactly
/// one ship, or when it is not placed, nothing moves.
pub open spec fn after_steering(
    s: Seq<Slot>,
    input: ControlInput,
    dt: u32,
    heading: Vec3,
) -> Seq<Slot> {
    match single_member(s, Category::Spaceship) {
        Some(ship) => match s[ship as int].components.transform {
            Some(t) => s.update(
                ship as int,
                Slot {
                    components: Components {
                        transform: Some(steered(t, input, dt, heading)),
                        ..s[ship as int].components
                    },
                    ..s[ship as int]
                },
            ),
            None => s,
        },
        None => s,
    }
}

/// Lets the controls act on the ship for `dt` milliseconds: thrust moves it
/// along `heading`, the turn and roll controls change its angles.
pub fn spaceship_movement_controls(
    world: &mut World,
    input: &ControlInput,
    dt: u32,
    heading: Vec3,
)
    requires
        old(world).wf(),
    ensures
        final(world).wf(),
        final(world).overlap_sets() == old(world).overlap_sets(),
        final(world)@ == after_steering(old(world)@, *input, dt, heading),
{
    if let Some(ship) = world.single(Category::Spaceship) {
        if let Some(c) = world.get(ship) {
            if let Some(t) = c.transform {
                world.insert(ship, Components { transform: Some(steer(t, input, dt, heading)), ..c });
            }
        }
    }
}

/// What a new missile carries when fired from a ship at `ship` along
/// `heading`.
pub open spec fn missile_components(ship: Transform, heading: Vec3, scene: u64) -> Components {
    Components {
        category: Some(Category::SpaceshipMissile),
        disposable: true,
        geometry: false,
        scene: Some(scene),
        transform: Some(
            Transform {
                translation: sum(
                    ship.translation,
                    scaled_to_length(heading, MISSILE_FORWARD_SCALAR as int),
                ),
                yaw: 0,
                roll: 0,
            },
        ),
        velocity: Some(scaled_to_length(heading, MISSILE_SPEED as int)),
        acceleration: None,
        collider: Some(Collider { radius: MISSILE_RADIUS }),
        health: Some(Health { value: MISSILE_HEALTH }),
        collision_damage: Some(CollisionDamage { amount: MISSILE_COLLISION_DAMAGE }),
    }
}

/// What a new missile carries.
pub fn new_missile(ship: Transform, heading: Vec3, scene: u64) -> (c: Components)
    ensures
        c == missile_components(ship, heading, scene),
{
    let body = MovingObjectBundle {
        velocity: heading.scale_to_length(MISSILE_SPEED),
        collider: Collider::ball(MISSILE_RADIUS),
    };
    let ahead = ship.translation.plus(heading.scale_to_length(MISSILE_FORWARD_SCALAR));
    body.attach(
        Components {
            category: Some(Category::SpaceshipMissile),
            disposable: true,
            scene: Some(scene),
            transform: Some(Transform::from_translation(ahead)),
            health: Some(Health::new(MISSILE_HEALTH)),
            collision_damage: Some(CollisionDamage::new(MISSILE_COLLISION_DAMAGE)),
            ..Components::empty()
        },
    )
}

/// The transform of the one ship, if there is exactly one and it is placed.
pub open spec fn ship_transform(s: Seq<Slot>) -> Option<Transform> {
    match single_member(s, Category::Spaceship) {
        Some(ship) => s[ship as int].components.transform,
        None => None,
    }
}

/// The cooldown after a frame of `dt` milliseconds: it advances only while
/// the fire control is held.
pub open spec fn cooled(t: RepeatingTimer, fire: bool, dt: u32) -> RepeatingTimer {
    if fire {
        ticked(t, dt)
    } else {
        t
    }
}

/// Whether `post` is a fair outcome of the weapon control on `pre`: one new
/// missile when the fire control is held, the cooldown runs out in this
/// frame, exactly one placed ship exists and there is a model for the
/// missile; else no change.
pub open spec fn missile_fired(
    pre: Seq<Slot>,
    post: Seq<Slot>,
    timer: RepeatingTimer,
    input: ControlInput,
    dt: u32,
    heading: Vec3,
    models: Seq<u64>,
) -> bool {
    if input.fire && ticked(timer, dt).finished && ship_transform(pre) is Some && models.len() > 0 {
        exists|scene: u64|
            models.contains(scene) && post == pre.push(
                root_slot(
                    #[trigger] missile_components(ship_transform(pre)->Some_0, heading, scene),
                ),
            )
    } else {
        post == pre
    }
}

/// Fires a missile when the fire control is held and the cooldown has run
/// out: the missile appears ahead of the ship and flies along `heading`.
/// Without exactly one placed ship, or without a bullet model, nothing is
/// fired.
pub fn spaceship_weapon_controls(
    world: &mut World,
    input: &ControlInput,
    cd_timer: &mut SpaceshipMissileCooldownTimer,
    dt: u32,
    scene_assets: &SceneAssets,
    heading: Vec3,
) -> (spawned: Option<EntityId>)
    requires
        old(world).wf(),
    ensures
        final(world).wf(),
        final(cd_timer).timer == cooled(old(cd_timer).timer, input.fire, dt),
        spawned is Some <==> input.fire && final(cd_timer).timer.finished && ship_transform(
            old(world)@,
        ) is Some && scene_assets.bullet@.len() > 0,
        missile_fired(
            old(world)@,
            final(world)@,
            old(cd_timer).timer,
            *input,
            dt,
            heading,
            scene_assets.bullet@,
        ),
        match spawned {
            Some(id) => {
                &&& id == old(world)@.len()
                &&& final(world).overlap_sets() == old(world).overlap_sets().push(Seq::empty())
            },
            None => final(world)@ == old(world)@ && final(world).overlap_sets() == old(
                world,
            ).overlap_sets(),
        },
{
    if !input.fire {
        return None;
    }
    cd_timer.timer.tick(dt);
    if !cd_timer.timer.just_finished() {
        return None;
    }
    let ship = match world.single(Category::Spaceship) {
        Some(ship) => ship,
        None => {
            return None;
        },
    };
    let t = match world.get(ship) {
        Some(c) => match c.transform {
            Some(t) => t,
            None => {
                return None;
            },
        },
        None => {
            return None;
        },
    };
    match scene_assets.get_random_bullet() {
        Some(scene) => {
            let id = world.spawn(new_missile(t, heading, scene));
            assert(scene_assets.bullet@.contains(scene) && world@ == old(world)@.push(
                root_slot(missile_components(t, heading, scene)),
            ));
            Some(id)
        },
        None => None,
    }
}

/// Whether the player's ship exists: at least one ship is alive.
pub open spec fn ship_present(s: Seq<Slot>) -> bool {
    has_member(s, Category::Spaceship)
}

/// Asks for `GameOver` when the player's ship no longer exists.
pub fn check_spaceship(world: &World) -> (request: Option<GameState>)
    ensures
        request == (if ship_present(world@) {
            None
        } else {
            Some(GameState::GameOver)
        }),
{
    if world.has(Category::Spaceship) {
        None
    } else {
        Some(GameState::GameOver)
    }
}

} // verus!
