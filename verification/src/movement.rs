//! Placement and motion of entities, and randomly drawn directions.

use crate::physics::Collider;
use crate::random::random_in_range;
use crate::vector::{
    lemma_scaled_is_almost_as_long, lemma_scaled_is_no_longer, lemma_scaled_keeps_zero,
    length_squared, scaled_to_length, Vec3, UNIT,
};
use crate::world::Components;
use std::ops::Range;
use vstd::prelude::*;

verus! {

/// Where an entity is and how it is turned. Angles are fractions of a full
/// turn in units of 2^-32, so they wrap around exactly.
#[derive(Clone, Copy, PartialEq, Eq, Debug)]
pub struct Transform {
    pub translation: Vec3,
    pub yaw: u32,
    pub roll: u32,
}

impl Transform {
    /// The transform at `translation` with no rotation.
    pub fn from_translation(translation: Vec3) -> (t: Transform)
        ensures
            t == (Transform { translation, yaw: 0, roll: 0 }),
    {
        Transform { translation, yaw: 0, roll: 0 }
    }
}

/// `angle` turned by `amount`, backwards when `negative`, modulo a full turn.
pub open spec fn turned(angle: u32, amount: u32, negative: bool) -> u32 {
    if negative {
        ((angle + 0x1_0000_0000 - amount) % 0x1_0000_0000) as u32
    } else {
        ((angle + amount) % 0x1_0000_0000) as u32
    }
}

/// The turn made in `dt` milliseconds at `speed` angle units per
/// millisecond, modulo a full turn.
pub open spec fn turn_amount(speed: u32, dt: u32) -> u32 {
    ((speed * dt) % 0x1_0000_0000) as u32
}

/// Turns `angle` by `amount`, backwards when `negative`.
pub fn turn(angle: u32, amount: u32, negative: bool) -> (r: u32)
    ensures
        r == turned(angle, amount, negative),
{
    let full: u64 = 0x1_0000_0000;
    if negative {
        ((angle as u64 + full - amount as u64) % full) as u32
    } else {
        ((angle as u64 + amount as u64) % full) as u32
    }
}

/// The turn made in `dt` milliseconds at `speed`.
pub fn turn_in(speed: u32, dt: u32) -> (r: u32)
    ensures
        r == turn_amount(speed, dt),
{
    assert(speed * dt <= 0xffff_ffff * 0xffff_ffff) by (nonlinear_arith)
        requires
            0 <= speed <= 0xffff_ffff,
            0 <= dt <= 0xffff_ffff,
    ;
    let full: u64 = 0x1_0000_0000;
    (((speed as u64) * (dt as u64)) % full) as u32
}

/// A direction with a length, in the horizontal plane when drawn at random.
#[derive(Clone, Copy, PartialEq, Eq, Debug)]
pub struct DirVector {
    pub value: Vec3,
}

/// The direction of the horizontal sample `(x, z)`, at length `len`.
pub open spec fn direction_of_sample(x: i32, z: i32, len: i32) -> Vec3 {
    scaled_to_length(Vec3 { x, y: 0, z }, len as int)
}

/// Whether `x` and `z` are coordinates that a random direction is drawn from.
pub open spec fn is_sample(x: i32, z: i32) -> bool {
    -UNIT <= x < UNIT && -UNIT <= z < UNIT
}

/// The requested length, or one world unit where none is given.
pub open spec fn length_or_unit(n: Option<i32>) -> i32 {
    match n {
        Some(len) => len,
        None => UNIT,
    }
}

/// Whether `v` can come out of a draw of a direction of length `len`.
pub open spec fn is_unit_sample(v: Vec3, len: i32) -> bool {
    exists|x: i32, z: i32| is_sample(x, z) && v == #[trigger] direction_of_sample(x, z, len)
}

/// Whether `v` can come out of a draw of a direction whose length is drawn
/// from `low..high`.
pub open spec fn is_polar_sample(v: Vec3, low: i32, high: i32) -> bool {
    exists|x: i32, z: i32, len: i32|
        is_sample(x, z) && low <= len < high && v == #[trigger] direction_of_sample(x, z, len)
}

/// Whether `v` can come out of a draw from the horizontal rectangle with
/// the given sides.
pub open spec fn is_rect_sample(v: Vec3, x_low: i32, x_high: i32, z_low: i32, z_high: i32) -> bool {
    v.y == 0 && x_low <= v.x < x_high && z_low <= v.z < z_high
}

/// The direction of a sample is horizontal and never longer than `len`;
/// unless the sample is `(0, 0)`, it falls less than four units short of
/// `len`.
pub proof fn lemma_direction_length(x: i32, z: i32, len: i32)
    ensures
        direction_of_sample(x, z, len).y == 0,
        length_squared(direction_of_sample(x, z, len)) <= len * len,
        x == 0 && z == 0 ==> direction_of_sample(x, z, len) == (Vec3 { x: 0, y: 0, z: 0 }),
        (x != 0 || z != 0) && len >= 4 ==> (len - 4) * (len - 4) <= length_squared(
            direction_of_sample(x, z, len),
        ),
{
    let sample = Vec3 { x, y: 0, z };
    lemma_scaled_keeps_zero(sample, len as int);
    lemma_scaled_is_no_longer(sample, len as int);
    assert(0 <= x * x && 0 <= z * z) by (nonlinear_arith);
    if x != 0 || z != 0 {
        assert(x * x + z * z != 0) by (nonlinear_arith)
            requires
                x != 0 || z != 0,
        ;
        lemma_scaled_is_almost_as_long(sample, len as int);
    }
}

/// A draw from a ring lies in the horizontal plane and strictly inside the
/// outer radius; unless it is the zero vector, which the sample `(0, 0)`
/// gives, it lies less than four units inside the inner radius at most.
pub proof fn lemma_polar_sample(v: Vec3, low: i32, high: i32)
    requires
        is_polar_sample(v, low, high),
        0 <= low,
    ensures
        v.y == 0,
        length_squared(v) < high * high,
        low >= 4 && v != (Vec3 { x: 0, y: 0, z: 0 }) ==> (low - 4) * (low - 4) <= length_squared(v),
{
    let (x, z, len) = choose|x: i32, z: i32, len: i32|
        is_sample(x, z) && low <= len < high && v == #[trigger] direction_of_sample(x, z, len);
    lemma_direction_length(x, z, len);
    assert(len * len < high * high) by (nonlinear_arith)
        requires
            0 <= len < high,
    ;
    if low >= 4 {
        assert((low - 4) * (low - 4) <= (len - 4) * (len - 4)) by (nonlinear_arith)
            requires
                4 <= low <= len,
        ;
    }
}

impl Default for DirVector {
    fn default() -> (d: DirVector)
        ensures
            d.value == (Vec3 { x: 0, y: 0, z: 0 }),
    {
        DirVector { value: Vec3 { x: 0, y: 0, z: 0 } }
    }
}

impl DirVector {
    pub fn new(value: Vec3) -> (d: DirVector)
        ensures
            d.value == value,
    {
        DirVector { value }
    }

    /// The direction of the horizontal sample `(x, z)`, at length `len`.
    /// The sample `(0, 0)` has no direction and gives the zero vector.
    pub fn from_sample(x: i32, z: i32, len: i32) -> (d: DirVector)
        ensures
            d.value == direction_of_sample(x, z, len),
    {
        DirVector { value: (Vec3 { x, y: 0, z }).scale_to_length(len) }
    }

    /// A random horizontal direction of length `n`, or of one world unit
    /// when `n` is `None`: both coordinates of a sample are drawn uniformly
    /// from `-UNIT..UNIT`, and the sample is rescaled.
    pub fn rng_unit(n: Option<i32>) -> (d: DirVector)
        ensures
            is_unit_sample(d.value, length_or_unit(n)),
    {
        let x: i32 = random_in_range(-UNIT, UNIT);
        let z: i32 = random_in_range(-UNIT, UNIT);
        let len: i32 = match n {
            Some(len) => len,
            None => UNIT,
        };
        let d = DirVector::from_sample(x, z, len);
        assert(is_sample(x, z) && d.value == direction_of_sample(x, z, length_or_unit(n)));
        d
    }

    /// A random horizontal direction whose length is drawn uniformly from
    /// `r_range`; `None` when the range is empty.
    pub fn rng_polar_range(r_range: Range<i32>) -> (d: Option<DirVector>)
        ensures
            d is None <==> r_range.start >= r_range.end,
            d matches Some(dir) ==> is_polar_sample(dir.value, r_range.start, r_range.end),
    {
        if r_range.start >= r_range.end {
            return None;
        }
        let x: i32 = random_in_range(-UNIT, UNIT);
        let z: i32 = random_in_range(-UNIT, UNIT);
        let len: i32 = random_in_range(r_range.start, r_range.end);
        let dir = DirVector::from_sample(x, z, len);
        assert(is_sample(x, z) && r_range.start <= len < r_range.end && dir.value
            == direction_of_sample(x, z, len));
        Some(dir)
    }

    /// A random point of the horizontal rectangle with sides `x_range` and
    /// `z_range`, each coordinate drawn uniformly; `None` when a side is
    /// empty.
    pub fn rng_rect(x_range: Range<i32>, z_range: Range<i32>) -> (d: Option<DirVector>)
        ensures
            d is None <==> x_range.start >= x_range.end || z_range.start >= z_range.end,
            d matches Some(dir) ==> is_rect_sample(
                dir.value,
                x_range.start,
                x_range.end,
                z_range.start,
                z_range.end,
            ),
    {
        if x_range.start >= x_range.end || z_range.start >= z_range.end {
            return None;
        }
        let x: i32 = random_in_range(x_range.start, x_range.end);
        let z: i32 = random_in_range(z_range.start, z_range.end);
        Some(DirVector { value: Vec3 { x, y: 0, z } })
    }

    /// The unrotated transform placed at this vector.
    pub fn get_transform(&self) -> (t: Transform)
        ensures
            t == (Transform { translation: self.value, yaw: 0, roll: 0 }),
    {
        Transform::from_translation(self.value)
    }
}

/// What every moving body carries: how fast it moves and how large it is.
#[derive(Clone, Copy, PartialEq, Eq, Debug)]
pub struct MovingObjectBundle {
    pub velocity: Vec3,
    pub collider: Collider,
}

/// `c` with the velocity and the collider of `bundle` attached.
pub open spec fn with_bundle(c: Components, bundle: MovingObjectBundle) -> Components {
    Components { velocity: Some(bundle.velocity), collider: Some(bundle.collider), ..c }
}

impl MovingObjectBundle {
    /// Attaches the bundle to `c`, replacing any velocity and collider.
    pub fn attach(self, c: Components) -> (r: Components)
        ensures
            r == with_bundle(c, self),
    {
        Components { velocity: Some(self.velocity), collider: Some(self.collider), ..c }
    }
}

impl Default for MovingObjectBundle {
    /// A body at rest with a collider of radius zero.
    fn default() -> (b: MovingObjectBundle)
        ensures
            b.velocity == (Vec3 { x: 0, y: 0, z: 0 }),
            b.collider.radius == 0,
    {
        MovingObjectBundle { velocity: Vec3 { x: 0, y: 0, z: 0 }, collider: Collider { radius: 0 } }
    }
}

} // verus!
