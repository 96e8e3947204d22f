//! Motion integration and overlap detection.

use crate::movement::Transform;
use crate::vector::{advance, distance_squared, Vec3};
use crate::world::{alive_at, Components, EntityId, Slot, World};
use vstd::prelude::*;

verus! {

/// Spherical contact geometry around an entity's position.
#[derive(Clone, Copy, PartialEq, Eq, Debug)]
pub struct Collider {
    pub radius: u32,
}

impl Collider {
    /// A sphere of the given radius.
    pub fn ball(radius: u32) -> (c: Collider)
        ensures
            c.radius == radius,
    {
        Collider { radius }
    }
}

/// `base + step * dt`, saturated in each coordinate.
pub open spec fn advanced(base: Vec3, step: Vec3, dt: u32) -> Vec3 {
    Vec3 {
        x: advance(base.x as int, step.x as int, dt as int) as i32,
        y: advance(base.y as int, step.y as int, dt as int) as i32,
        z: advance(base.z as int, step.z as int, dt as int) as i32,
    }
}

/// The velocity pass on one entity: acceleration, where there is one, is
/// added to the velocity and used up.
pub open spec fn accelerated(c: Components, dt: u32) -> Components {
    match (c.velocity, c.acceleration) {
        (Some(v), Some(a)) => Components {
            velocity: Some(advanced(v, a, dt)),
            acceleration: Some(Vec3 { x: 0, y: 0, z: 0 }),
            ..c
        },
        _ => c,
    }
}

/// The position pass on one entity: its velocity carries it along.
pub open spec fn displaced(c: Components, dt: u32) -> Components {
    match (c.transform, c.velocity) {
        (Some(t), Some(v)) => Components {
            transform: Some(Transform { translation: advanced(t.translation, v, dt), ..t }),
            ..c
        },
        _ => c,
    }
}

/// `f` applied to what is attached to each live entity.
pub open spec fn map_alive(s: Seq<Slot>, f: spec_fn(Components) -> Components) -> Seq<Slot> {
    Seq::new(
        s.len(),
        |i: int|
            if s[i].alive {
                Slot { components: f(s[i].components), ..s[i] }
            } else {
                s[i]
            },
    )
}

/// The arena after the velocity pass.
pub open spec fn after_velocity_pass(s: Seq<Slot>, dt: u32) -> Seq<Slot> {
    map_alive(s, |c: Components| accelerated(c, dt))
}

/// The arena after the position pass.
pub open spec fn after_position_pass(s: Seq<Slot>, dt: u32) -> Seq<Slot> {
    map_alive(s, |c: Components| displaced(c, dt))
}

/// The velocity pass on one entity.
pub fn accelerate(c: Components, dt: u32) -> (r: Components)
    ensures
        r == accelerated(c, dt),
{
    match (c.velocity, c.acceleration) {
        (Some(v), Some(a)) => Components {
            velocity: Some(v.add_scaled(a, dt)),
            acceleration: Some(Vec3 { x: 0, y: 0, z: 0 }),
            ..c
        },
        _ => c,
    }
}

/// The position pass on one entity.
pub fn displace(c: Components, dt: u32) -> (r: Components)
    ensures
        r == displaced(c, dt),
{
    match (c.transform, c.velocity) {
        (Some(t), Some(v)) => Components {
            transform: Some(Transform { translation: t.translation.add_scaled(v, dt), ..t }),
            ..c
        },
        _ => c,
    }
}

/// Updates every velocity from its acceleration over `dt` milliseconds.
pub fn integrate_velocities(world: &mut World, dt: u32)
    requires
        old(world).wf(),
    ensures
        final(world).wf(),
        final(world).overlap_sets() == old(world).overlap_sets(),
        final(world)@ == after_velocity_pass(old(world)@, dt),
{
    let n: usize = world.len();
    let mut i: usize = 0;
    while i < n
        invariant
            i <= n,
            n == old(world)@.len(),
            world.wf(),
            world.overlap_sets() == old(world).overlap_sets(),
            world@.len() == n,
            forall|j: int| 0 <= j < i ==> world@[j] == after_velocity_pass(old(world)@, dt)[j],
            forall|j: int| i <= j < n ==> world@[j] == old(world)@[j],
        decreases n - i,
    {
        if let Some(c) = world.get(i) {
            world.insert(i, accelerate(c, dt));
        }
        i += 1;
    }
    assert(world@ =~= after_velocity_pass(old(world)@, dt));
}

/// Updates every position from its velocity over `dt` milliseconds.
pub fn integrate_positions(world: &mut World, dt: u32)
    requires
        old(world).wf(),
    ensures
        final(world).wf(),
        final(world).overlap_sets() == old(world).overlap_sets(),
        final(world)@ == after_position_pass(old(world)@, dt),
{
    let n: usize = world.len();
    let mut i: usize = 0;
    while i < n
        invariant
            i <= n,
            n == old(world)@.len(),
            world.wf(),
            world.overlap_sets() == old(world).overlap_sets(),
            world@.len() == n,
            forall|j: int| 0 <= j < i ==> world@[j] == after_position_pass(old(world)@, dt)[j],
            forall|j: int| i <= j < n ==> world@[j] == old(world)@[j],
        decreases n - i,
    {
        if let Some(c) = world.get(i) {
            world.insert(i, displace(c, dt));
        }
        i += 1;
    }
    assert(world@ =~= after_position_pass(old(world)@, dt));
}

/// One step of motion over `dt` milliseconds: all velocities are brought up
/// to date before the first position moves.
pub fn apply_kinematics(world: &mut World, dt: u32)
    requires
        old(world).wf(),
    ensures
        final(world).wf(),
        final(world).overlap_sets() == old(world).overlap_sets(),
        final(world)@ == after_position_pass(after_velocity_pass(old(world)@, dt), dt),
{
    integrate_velocities(world, dt);
    integrate_positions(world, dt);
}

/// Whether the spheres of `a` and `b` intersect: both are alive, distinct,
/// placed and have a collider, and their centres are closer than the sum of
/// their radii. Distances are compared by their squares, which is exact.
pub open spec fn touching(s: Seq<Slot>, a: int, b: int) -> bool {
    &&& a != b
    &&& alive_at(s, a)
    &&& alive_at(s, b)
    &&& s[a].components.transform matches Some(ta)
    &&& s[a].components.collider matches Some(ca)
    &&& s[b].components.transform matches Some(tb)
    &&& s[b].components.collider matches Some(cb)
    &&& distance_squared(ta.translation, tb.translation) < (ca.radius + cb.radius) * (ca.radius
        + cb.radius)
}

/// The entities below `n` that touch `a`, in ascending order.
pub open spec fn overlaps_below(s: Seq<Slot>, a: int, n: int) -> Seq<EntityId>
    decreases n,
{
    if n <= 0 {
        Seq::empty()
    } else if touching(s, a, n - 1) {
        overlaps_below(s, a, n - 1).push((n - 1) as usize)
    } else {
        overlaps_below(s, a, n - 1)
    }
}

/// All entities that touch `a`, in ascending order.
pub open spec fn overlaps_of(s: Seq<Slot>, a: int) -> Seq<EntityId> {
    overlaps_below(s, a, s.len() as int)
}

/// Touching does not depend on the order of the two entities.
pub proof fn lemma_touching_symmetric(s: Seq<Slot>, a: int, b: int)
    ensures
        touching(s, a, b) == touching(s, b, a),
{
    if alive_at(s, a) && alive_at(s, b) {
        if let (Some(ta), Some(tb)) = (s[a].components.transform, s[b].components.transform) {
            let p = ta.translation;
            let q = tb.translation;
            assert((p.x - q.x) * (p.x - q.x) == (q.x - p.x) * (q.x - p.x)) by (nonlinear_arith);
            assert((p.y - q.y) * (p.y - q.y) == (q.y - p.y) * (q.y - p.y)) by (nonlinear_arith);
            assert((p.z - q.z) * (p.z - q.z) == (q.z - p.z) * (q.z - p.z)) by (nonlinear_arith);
            if let (Some(ca), Some(cb)) = (s[a].components.collider, s[b].components.collider) {
                assert(ca.radius + cb.radius == cb.radius + ca.radius);
            }
        }
    }
}

/// The overlap set of `a`, taken up to `n`, holds exactly the entities below
/// `n` that touch `a`.
pub proof fn lemma_overlaps_below_contains(s: Seq<Slot>, a: int, n: int, b: EntityId)
    requires
        n <= s.len() <= usize::MAX,
    ensures
        overlaps_below(s, a, n).contains(b) <==> b < n && touching(s, a, b as int),
    decreases n,
{
    if n > 0 {
        lemma_overlaps_below_contains(s, a, n - 1, b);
        let earlier = overlaps_below(s, a, n - 1);
        if touching(s, a, n - 1) {
            let all = earlier.push((n - 1) as usize);
            if all.contains(b) {
                let i = choose|i: int| 0 <= i < all.len() && all[i] == b;
                if i < earlier.len() {
                    assert(earlier[i] == b);
                }
            }
            if earlier.contains(b) {
                let i = choose|i: int| 0 <= i < earlier.len() && earlier[i] == b;
                assert(all[i] == b);
            }
            if b == n - 1 {
                assert(all[earlier.len() as int] == b);
            }
        }
    }
}

/// Overlap is mutual: `b` is in the overlap set of `a` exactly when `a` is
/// in the overlap set of `b`.
pub proof fn lemma_overlaps_symmetric(s: Seq<Slot>, a: EntityId, b: EntityId)
    requires
        s.len() <= usize::MAX,
        a < s.len(),
        b < s.len(),
    ensures
        overlaps_of(s, a as int).contains(b) <==> overlaps_of(s, b as int).contains(a),
{
    lemma_overlaps_below_contains(s, a as int, s.len() as int, b);
    lemma_overlaps_below_contains(s, b as int, s.len() as int, a);
    lemma_touching_symmetric(s, a as int, b as int);
}

/// Whether two placed spheres intersect.
pub fn spheres_touch(ta: Transform, ca: Collider, tb: Transform, cb: Collider) -> (hit: bool)
    ensures
        hit == (distance_squared(ta.translation, tb.translation) < (ca.radius + cb.radius) * (
        ca.radius + cb.radius)),
{
    let reach: u128 = ca.radius as u128 + cb.radius as u128;
    assert(reach * reach <= 0x2_0000_0000 * 0x2_0000_0000) by (nonlinear_arith)
        requires
            0 <= reach <= 0x2_0000_0000,
    ;
    ta.translation.distance_squared(tb.translation) < reach * reach
}

/// Whether `a` and `b` touch.
pub fn entities_touch(world: &World, a: EntityId, b: EntityId) -> (hit: bool)
    ensures
        hit == touching(world@, a as int, b as int),
{
    if a == b {
        return false;
    }
    match (world.get(a), world.get(b)) {
        (Some(x), Some(y)) => match (x.transform, x.collider, y.transform, y.collider) {
            (Some(ta), Some(ca), Some(tb), Some(cb)) => spheres_touch(ta, ca, tb, cb),
            _ => false,
        },
        _ => false,
    }
}

/// Recomputes every overlap set from the current positions. Each ordered
/// pair of entities is examined; the previous sets are discarded.
pub fn detect_overlaps(world: &mut World)
    requires
        old(world).wf(),
    ensures
        final(world).wf(),
        final(world)@ == old(world)@,
        forall|a: int|
            0 <= a < old(world)@.len() ==> #[trigger] final(world).overlap_sets()[a] == overlaps_of(
                old(world)@,
                a,
            ),
{
    let n: usize = world.len();
    let mut table: Vec<Vec<EntityId>> = Vec::new();
    let mut a: usize = 0;
    while a < n
        invariant
            a <= n,
            n == world@.len(),
            world.wf(),
            world@ == old(world)@,
            table@.len() == a,
            forall|i: int| 0 <= i < a ==> (#[trigger] table@[i])@ == overlaps_of(world@, i),
        decreases n - a,
    {
        let mut list: Vec<EntityId> = Vec::new();
        let mut b: usize = 0;
        while b < n
            invariant
                b <= n,
                a < n,
                n == world@.len(),
                list@ == overlaps_below(world@, a as int, b as int),
            decreases n - b,
        {
            if entities_touch(world, a, b) {
                list.push(b);
            }
            b += 1;
        }
        table.push(list);
        a += 1;
    }
    world.set_overlaps(table);
}

} // verus!
