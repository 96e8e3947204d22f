//! Integer vectors and the exact geometry the simulation rests on.

use vstd::prelude::*;

verus! {

/// Number of length units in one world unit.
pub const UNIT: i32 = 1000;

/// `v` brought into the range of `i32`.
pub open spec fn clamp_i32(v: int) -> int {
    if v < i32::MIN {
        i32::MIN as int
    } else if v > i32::MAX {
        i32::MAX as int
    } else {
        v
    }
}

/// Narrows `v` to `i32`, saturating at the bounds.
pub fn saturate(v: i64) -> (r: i32)
    ensures
        r == clamp_i32(v as int),
{
    if v < i32::MIN as i64 {
        i32::MIN
    } else if v > i32::MAX as i64 {
        i32::MAX
    } else {
        v as i32
    }
}

/// A point or a displacement in space.
#[derive(Clone, Copy, PartialEq, Eq, Debug)]
pub struct Vec3 {
    pub x: i32,
    pub y: i32,
    pub z: i32,
}

/// Square of the Euclidean distance between `a` and `b`.
pub open spec fn distance_squared(a: Vec3, b: Vec3) -> int {
    (a.x - b.x) * (a.x - b.x) + (a.y - b.y) * (a.y - b.y) + (a.z - b.z) * (a.z - b.z)
}

/// Square of the Euclidean length of `v`.
pub open spec fn length_squared(v: Vec3) -> int {
    v.x * v.x + v.y * v.y + v.z * v.z
}

/// `a - b`, saturated in each coordinate.
pub open spec fn difference(a: Vec3, b: Vec3) -> Vec3 {
    Vec3 {
        x: clamp_i32(a.x - b.x) as i32,
        y: clamp_i32(a.y - b.y) as i32,
        z: clamp_i32(a.z - b.z) as i32,
    }
}

/// `a + b`, saturated in each coordinate.
pub open spec fn sum(a: Vec3, b: Vec3) -> Vec3 {
    Vec3 {
        x: clamp_i32(a.x + b.x) as i32,
        y: clamp_i32(a.y + b.y) as i32,
        z: clamp_i32(a.z + b.z) as i32,
    }
}

/// `base + step * k`, saturated, for one coordinate.
pub open spec fn advance(base: int, step: int, k: int) -> int {
    clamp_i32(base + step * k)
}

proof fn lemma_square_bound(d: int, bound: int)
    requires
        -bound <= d <= bound,
    ensures
        0 <= d * d <= bound * bound,
{
    assert(0 <= d * d <= bound * bound) by (nonlinear_arith)
        requires
            -bound <= d <= bound,
    ;
}

proof fn lemma_product_bound(a: int, k: int, abound: int, kbound: int)
    requires
        -abound <= a <= abound,
        0 <= k <= kbound,
    ensures
        -abound * kbound <= a * k <= abound * kbound,
{
    assert(-abound * kbound <= a * k <= abound * kbound) by (nonlinear_arith)
        requires
            -abound <= a <= abound,
            0 <= k <= kbound,
    ;
}

fn square_of_difference(a: i32, b: i32) -> (r: u128)
    ensures
        r == (a - b) * (a - b),
        r <= 0x1_0000_0000 * 0x1_0000_0000,
{
    let d: i64 = a as i64 - b as i64;
    let m: u64 = if d < 0 {
        (0 - d) as u64
    } else {
        d as u64
    };
    proof {
        lemma_square_bound(m as int, 0x1_0000_0000);
        assert(m * m == (a - b) * (a - b)) by (nonlinear_arith)
            requires
                m == a - b || m == -(a - b),
        ;
    }
    (m as u128) * (m as u128)
}

fn advance_coordinate(base: i32, step: i32, k: u32) -> (r: i32)
    ensures
        r == advance(base as int, step as int, k as int),
{
    proof {
        lemma_product_bound(step as int, k as int, 0x8000_0000, 0xffff_ffff);
    }
    let moved: i128 = base as i128 + (step as i128) * (k as i128);
    if moved < i32::MIN as i128 {
        i32::MIN
    } else if moved > i32::MAX as i128 {
        i32::MAX
    } else {
        moved as i32
    }
}

/// Whether `s` is the least natural number whose square reaches `n`.
pub open spec fn is_ceil_sqrt(n: int, s: int) -> bool {
    &&& 0 <= s
    &&& n <= s * s
    &&& s == 0 || (s - 1) * (s - 1) < n
}

/// The square root of `n`, rounded up.
pub open spec fn ceil_sqrt(n: int) -> int {
    choose|s: int| is_ceil_sqrt(n, s)
}

/// At most one number is the rounded-up root of `n`.
pub proof fn lemma_ceil_sqrt_unique(n: int, s1: int, s2: int)
    requires
        is_ceil_sqrt(n, s1),
        is_ceil_sqrt(n, s2),
    ensures
        s1 == s2,
{
    if s1 < s2 {
        assert(s1 * s1 <= (s2 - 1) * (s2 - 1)) by (nonlinear_arith)
            requires
                0 <= s1 <= s2 - 1,
        ;
    } else if s2 < s1 {
        assert(s2 * s2 <= (s1 - 1) * (s1 - 1)) by (nonlinear_arith)
            requires
                0 <= s2 <= s1 - 1,
        ;
    }
}

/// The square root of `n`, rounded up.
pub fn ceil_sqrt_u128(n: u128) -> (s: u128)
    ensures
        is_ceil_sqrt(n as int, s as int),
        s == ceil_sqrt(n as int),
        s <= 0x1_0000_0000_0000_0000,
{
    let mut low: u128 = 0;
    let mut high: u128 = 0x1_0000_0000_0000_0000;
    assert(n <= high * high) by (nonlinear_arith)
        requires
            high == 0x1_0000_0000_0000_0000,
            n <= 0xffff_ffff_ffff_ffff_ffff_ffff_ffff_ffff,
    ;
    while low < high
        invariant
            low <= high <= 0x1_0000_0000_0000_0000,
            n <= high * high,
            low == 0 || (low - 1) * (low - 1) < n,
        decreases high - low,
    {
        let mid: u128 = low + (high - low) / 2;
        proof {
            lemma_square_bound(mid as int, 0xffff_ffff_ffff_ffff);
        }
        if mid * mid >= n {
            high = mid;
        } else {
            low = mid + 1;
        }
    }
    proof {
        lemma_ceil_sqrt_unique(n as int, low as int, ceil_sqrt(n as int));
    }
    low
}

/// The factor by which a length is refined before it divides: 2^30.
pub const FINE: u128 = 0x4000_0000;

/// The square of `FINE`.
pub const FINE_SQUARED: u128 = 0x1000_0000_0000_0000;

/// The length of `v` in units of `1 / FINE`, rounded up.
pub open spec fn fine_length(v: Vec3) -> int {
    ceil_sqrt(length_squared(v) * FINE_SQUARED)
}

/// One coordinate `c` of a vector of fine length `s`, rescaled to length
/// `len`: the quotient is rounded toward zero.
pub open spec fn scale_coordinate(c: int, len: int, s: int) -> int {
    let magnitude = ((if c < 0 { -c } else { c }) * (if len < 0 { -len } else { len }) * FINE) / s;
    clamp_i32(if (c < 0) != (len < 0) { -magnitude } else { magnitude })
}

/// `v` rescaled to length `len`, keeping its direction (reversed when `len`
/// is negative); the zero vector stays zero. The length of `v` is rounded up
/// before dividing, so the result is never longer than `len`; it is rounded
/// in units of `1 / FINE`, so short vectors keep their direction too. Each
/// coordinate is a whole number, so the result may be shorter than `len`,
/// by less than four units.
pub open spec fn scaled_to_length(v: Vec3, len: int) -> Vec3 {
    if length_squared(v) == 0 {
        Vec3 { x: 0, y: 0, z: 0 }
    } else {
        let s = fine_length(v);
        Vec3 {
            x: scale_coordinate(v.x as int, len, s) as i32,
            y: scale_coordinate(v.y as int, len, s) as i32,
            z: scale_coordinate(v.z as int, len, s) as i32,
        }
    }
}

/// Every natural number has a rounded-up square root.
pub proof fn lemma_ceil_sqrt_exists(n: nat) -> (s: int)
    ensures
        is_ceil_sqrt(n as int, s),
        s == ceil_sqrt(n as int),
    decreases n,
{
    if n == 0 {
        assert(is_ceil_sqrt(0, 0));
        lemma_ceil_sqrt_unique(0, 0, ceil_sqrt(0));
        0
    } else {
        let below = lemma_ceil_sqrt_exists((n - 1) as nat);
        let s = if below * below >= n {
            below
        } else {
            below + 1
        };
        assert(is_ceil_sqrt(n as int, s)) by (nonlinear_arith)
            requires
                is_ceil_sqrt(n - 1, below),
                n >= 1,
                s == (if below * below >= n {
                    below
                } else {
                    below + 1
                }),
        ;
        lemma_ceil_sqrt_unique(n as int, s, ceil_sqrt(n as int));
        s
    }
}

/// The part of the proof of `lemma_scaled_is_no_longer` that is about one
/// coordinate: the square of the rescaled coordinate, times the square of
/// the fine length, is at most the square of the refined coordinate times
/// the square of the requested length.
proof fn lemma_scaled_coordinate(c: int, len: int, s: int)
    requires
        0 < s,
    ensures
        scale_coordinate(c, len, s) * scale_coordinate(c, len, s) * (s * s) <= (c * c
            * FINE_SQUARED) * (len * len),
{
    let a = if c < 0 {
        -c
    } else {
        c
    };
    let l = if len < 0 {
        -len
    } else {
        len
    };
    let fine = a * l * FINE;
    let m = fine / s;
    let r = scale_coordinate(c, len, s);
    assert(0 <= a * l) by (nonlinear_arith)
        requires
            0 <= a,
            0 <= l,
    ;
    assert(0 <= m && m * s <= fine) by (nonlinear_arith)
        requires
            m == fine / s,
            0 < s,
            0 <= fine,
    ;
    assert(r * r <= m * m) by (nonlinear_arith)
        requires
            -m <= r <= m,
    ;
    assert((m * s) * (m * s) <= fine * fine) by (nonlinear_arith)
        requires
            0 <= m * s <= fine,
    ;
    assert(r * r * (s * s) <= (m * s) * (m * s)) by (nonlinear_arith)
        requires
            r * r <= m * m,
            0 < s,
    ;
    assert(fine * fine == (c * c * 0x1000_0000_0000_0000) * (len * len)) by (nonlinear_arith)
        requires
            fine == a * l * 0x4000_0000,
            a == c || a == -c,
            l == len || l == -len,
    ;
}

/// A rescaled vector is never longer than the length asked for.
pub proof fn lemma_scaled_is_no_longer(v: Vec3, len: int)
    ensures
        length_squared(scaled_to_length(v, len)) <= len * len,
{
    let n = length_squared(v);
    assert(0 <= len * len) by (nonlinear_arith);
    assert(0 <= n) by (nonlinear_arith)
        requires
            n == v.x * v.x + v.y * v.y + v.z * v.z,
    ;
    if n != 0 {
        let fine = n * FINE_SQUARED;
        let s = lemma_ceil_sqrt_exists(fine as nat);
        assert(0 < s) by (nonlinear_arith)
            requires
                0 < fine <= s * s,
                0 <= s,
        ;
        let r = scaled_to_length(v, len);
        lemma_scaled_coordinate(v.x as int, len, s);
        lemma_scaled_coordinate(v.y as int, len, s);
        lemma_scaled_coordinate(v.z as int, len, s);
        let rx = scale_coordinate(v.x as int, len, s);
        let ry = scale_coordinate(v.y as int, len, s);
        let rz = scale_coordinate(v.z as int, len, s);
        assert(r.x == rx && r.y == ry && r.z == rz);
        let total = rx * rx + ry * ry + rz * rz;
        assert(total * (s * s) <= fine * (len * len)) by (nonlinear_arith)
            requires
                total == rx * rx + ry * ry + rz * rz,
                fine == (v.x * v.x + v.y * v.y + v.z * v.z) * 0x1000_0000_0000_0000,
                rx * rx * (s * s) <= (v.x * v.x * 0x1000_0000_0000_0000) * (len * len),
                ry * ry * (s * s) <= (v.y * v.y * 0x1000_0000_0000_0000) * (len * len),
                rz * rz * (s * s) <= (v.z * v.z * 0x1000_0000_0000_0000) * (len * len),
        ;
        assert(total <= len * len) by (nonlinear_arith)
            requires
                total * (s * s) <= fine * (len * len),
                fine <= s * s,
                0 < s,
                0 <= len * len,
        ;
    }
}

/// Rescaling leaves a coordinate that is zero at zero.
pub proof fn lemma_scaled_keeps_zero(v: Vec3, len: int)
    ensures
        v.x == 0 ==> scaled_to_length(v, len).x == 0,
        v.y == 0 ==> scaled_to_length(v, len).y == 0,
        v.z == 0 ==> scaled_to_length(v, len).z == 0,
{
    let n = length_squared(v);
    assert(0 <= n) by (nonlinear_arith)
        requires
            n == v.x * v.x + v.y * v.y + v.z * v.z,
    ;
    if n != 0 {
        let s = lemma_ceil_sqrt_exists((n * FINE_SQUARED) as nat);
        let l = if len < 0 {
            -len
        } else {
            len
        };
        assert(0 * l * FINE == 0) by (nonlinear_arith);
        assert(0int / s == 0) by (nonlinear_arith)
            requires
                0 < n * 0x1000_0000_0000_0000 <= s * s,
        ;
    }
}

/// The magnitude of one rescaled coordinate before it is given its sign.
pub open spec fn scaled_magnitude(c: int, len: int, s: int) -> int {
    ((if c < 0 { -c } else { c }) * (if len < 0 { -len } else { len }) * FINE) / s
}

/// The part of the proof of `lemma_scaled_is_almost_as_long` that is about
/// one coordinate: rounding toward zero loses less than one unit, and the
/// magnitude does not exceed the requested length.
proof fn lemma_scaled_magnitude(c: int, len: int, s: int, n: int)
    requires
        0 < s,
        c * c <= n,
        n * FINE_SQUARED <= s * s,
    ensures
        0 <= scaled_magnitude(c, len, s) <= (if len < 0 { -len } else { len }),
        (c * c * FINE_SQUARED) * (len * len) <= ((scaled_magnitude(c, len, s) + 1) * s) * ((
        scaled_magnitude(c, len, s) + 1) * s),
{
    let a = if c < 0 {
        -c
    } else {
        c
    };
    let l = if len < 0 {
        -len
    } else {
        len
    };
    let reach = a * 0x4000_0000;
    let fine = a * l * FINE;
    let m = fine / s;
    assert(reach * reach <= s * s) by (nonlinear_arith)
        requires
            reach == a * 0x4000_0000,
            a == c || a == -c,
            c * c <= n,
            n * 0x1000_0000_0000_0000 <= s * s,
    ;
    assert(reach <= s) by (nonlinear_arith)
        requires
            reach * reach <= s * s,
            0 <= reach,
            0 < s,
    ;
    assert(fine == l * reach && 0 <= fine) by (nonlinear_arith)
        requires
            fine == a * l * 0x4000_0000,
            reach == a * 0x4000_0000,
            0 <= a,
            0 <= l,
    ;
    assert(0 <= m && m * s <= fine && fine < (m + 1) * s) by (nonlinear_arith)
        requires
            m == fine / s,
            0 < s,
            0 <= fine,
    ;
    assert(m <= l) by (nonlinear_arith)
        requires
            m * s <= fine,
            fine == l * reach,
            reach <= s,
            0 <= l,
            0 <= m,
            0 < s,
    ;
    assert(fine * fine <= ((m + 1) * s) * ((m + 1) * s)) by (nonlinear_arith)
        requires
            0 <= fine < (m + 1) * s,
    ;
    assert(fine * fine == (c * c * 0x1000_0000_0000_0000) * (len * len)) by (nonlinear_arith)
        requires
            fine == a * l * 0x4000_0000,
            a == c || a == -c,
            l == len || l == -len,
    ;
}

/// The heart of `lemma_scaled_is_almost_as_long`: three magnitudes that
/// each fall less than one unit short cannot together fall four units
/// short of the length.
proof fn lemma_three_short_steps(mx: int, my: int, mz: int, l: int, s: int, fine: int)
    requires
        0 <= mx,
        0 <= my,
        0 <= mz,
        4 <= l,
        l <= 2 * s,
        0 < s,
        (s - 1) * (s - 1) < fine,
        fine * (l * l) <= ((mx + 1) * s) * ((mx + 1) * s) + ((my + 1) * s) * ((my + 1) * s) + ((mz
            + 1) * s) * ((mz + 1) * s),
    ensures
        (l - 4) * (l - 4) <= mx * mx + my * my + mz * mz,
{
    let total = mx * mx + my * my + mz * mz;
    let sum = mx + my + mz;
    let wide = (mx + 1) * (mx + 1) + (my + 1) * (my + 1) + (mz + 1) * (mz + 1);
    if total < (l - 4) * (l - 4) {
        assert(0 <= (mx - my) * (mx - my)) by (nonlinear_arith);
        assert(0 <= (my - mz) * (my - mz)) by (nonlinear_arith);
        assert(0 <= (mx - mz) * (mx - mz)) by (nonlinear_arith);
        assert(sum * sum <= 3 * total) by (nonlinear_arith)
            requires
                sum == mx + my + mz,
                total == mx * mx + my * my + mz * mz,
                0 <= (mx - my) * (mx - my),
                0 <= (my - mz) * (my - mz),
                0 <= (mx - mz) * (mx - mz),
        ;
        assert((4 * sum) * (4 * sum) < (7 * (l - 4)) * (7 * (l - 4))) by (nonlinear_arith)
            requires
                sum * sum <= 3 * total,
                total < (l - 4) * (l - 4),
        ;
        assert(4 * sum < 7 * (l - 4)) by (nonlinear_arith)
            requires
                (4 * sum) * (4 * sum) < (7 * (l - 4)) * (7 * (l - 4)),
                0 <= sum,
                0 <= l - 4,
        ;
        assert(wide == total + 2 * sum + 3) by (nonlinear_arith)
            requires
                wide == (mx + 1) * (mx + 1) + (my + 1) * (my + 1) + (mz + 1) * (mz + 1),
                total == mx * mx + my * my + mz * mz,
                sum == mx + my + mz,
        ;
        assert(wide < (l - 2) * (l - 2)) by (nonlinear_arith)
            requires
                wide == total + 2 * sum + 3,
                total < (l - 4) * (l - 4),
                4 * sum < 7 * (l - 4),
                4 <= l,
        ;
        assert(wide * (s * s) < ((l - 2) * s) * ((l - 2) * s)) by (nonlinear_arith)
            requires
                wide < (l - 2) * (l - 2),
                0 < s,
        ;
        assert(0 <= (l - 2) * s <= l * (s - 1)) by (nonlinear_arith)
            requires
                4 <= l <= 2 * s,
                0 < s,
        ;
        assert(((l - 2) * s) * ((l - 2) * s) <= (l * (s - 1)) * (l * (s - 1))) by (nonlinear_arith)
            requires
                0 <= (l - 2) * s <= l * (s - 1),
        ;
        assert((l * (s - 1)) * (l * (s - 1)) <= fine * (l * l)) by (nonlinear_arith)
            requires
                (s - 1) * (s - 1) < fine,
                0 <= l,
        ;
        assert(wide * (s * s) == ((mx + 1) * s) * ((mx + 1) * s) + ((my + 1) * s) * ((my + 1) * s)
            + ((mz + 1) * s) * ((mz + 1) * s)) by (nonlinear_arith)
            requires
                wide == (mx + 1) * (mx + 1) + (my + 1) * (my + 1) + (mz + 1) * (mz + 1),
        ;
    }
}

/// A rescaled vector falls less than four units short of the length asked
/// for: rounding each coordinate toward zero costs less than one unit, and
/// rounding the length of the vector up costs less than two.
pub proof fn lemma_scaled_is_almost_as_long(v: Vec3, len: int)
    requires
        length_squared(v) != 0,
        i32::MIN <= len <= i32::MAX,
    ensures
        ({
            let l = if len < 0 {
                -len
            } else {
                len
            };
            l >= 4 ==> (l - 4) * (l - 4) <= length_squared(scaled_to_length(v, len))
        }),
{
    let l = if len < 0 {
        -len
    } else {
        len
    };
    let n = length_squared(v);
    assert(0 <= v.x * v.x && 0 <= v.y * v.y && 0 <= v.z * v.z) by (nonlinear_arith);
    let fine = n * FINE_SQUARED;
    let s = lemma_ceil_sqrt_exists(fine as nat);
    assert(0x4000_0000 <= s) by (nonlinear_arith)
        requires
            0x1000_0000_0000_0000 <= fine <= s * s,
            0 <= s,
    ;
    if l >= 4 {
        let r = scaled_to_length(v, len);
        lemma_scaled_magnitude(v.x as int, len, s, n);
        lemma_scaled_magnitude(v.y as int, len, s, n);
        lemma_scaled_magnitude(v.z as int, len, s, n);
        let mx = scaled_magnitude(v.x as int, len, s);
        let my = scaled_magnitude(v.y as int, len, s);
        let mz = scaled_magnitude(v.z as int, len, s);
        assert(0 <= r.x * r.x && 0 <= r.y * r.y && 0 <= r.z * r.z) by (nonlinear_arith);
        assert((l - 4) * (l - 4) <= 0x7fff_ffff * 0x7fff_ffff) by (nonlinear_arith)
            requires
                4 <= l <= 0x8000_0000,
        ;
        if mx == 0x8000_0000 {
            assert(r.x == -0x8000_0000 || r.x == 0x7fff_ffff);
        } else if my == 0x8000_0000 {
            assert(r.y == -0x8000_0000 || r.y == 0x7fff_ffff);
        } else if mz == 0x8000_0000 {
            assert(r.z == -0x8000_0000 || r.z == 0x7fff_ffff);
        } else {
            assert(r.x == mx || r.x == -mx);
            assert(r.y == my || r.y == -my);
            assert(r.z == mz || r.z == -mz);
            assert(r.x * r.x == mx * mx && r.y * r.y == my * my && r.z * r.z == mz * mz)
                by (nonlinear_arith)
                requires
                    r.x == mx || r.x == -mx,
                    r.y == my || r.y == -my,
                    r.z == mz || r.z == -mz,
            ;
            assert(fine * (l * l) == (v.x * v.x * 0x1000_0000_0000_0000) * (len * len) + (v.y
                * v.y * 0x1000_0000_0000_0000) * (len * len) + (v.z * v.z
                * 0x1000_0000_0000_0000) * (len * len)) by (nonlinear_arith)
                requires
                    fine == (v.x * v.x + v.y * v.y + v.z * v.z) * 0x1000_0000_0000_0000,
                    l == len || l == -len,
            ;
            lemma_three_short_steps(mx, my, mz, l, s, fine);
        }
    }
}

fn magnitude(c: i32) -> (m: u128)
    ensures
        m == (if c < 0 { -c } else { c as int }),
        m <= 0x8000_0000,
{
    let wide: i64 = c as i64;
    if wide < 0 {
        (0 - wide) as u128
    } else {
        wide as u128
    }
}

fn scale_one(c: i32, len: i32, s: u128) -> (r: i32)
    requires
        0 < s,
    ensures
        r == scale_coordinate(c as int, len as int, s as int),
{
    let a: u128 = magnitude(c);
    let b: u128 = magnitude(len);
    proof {
        lemma_product_bound(a as int, b as int, 0x8000_0000, 0x8000_0000);
    }
    let product: u128 = a * b * FINE;
    let quotient: u128 = product / s;
    let signed: i64 = if quotient > 0x8000_0000 {
        if (c < 0) != (len < 0) {
            i32::MIN as i64
        } else {
            i32::MAX as i64
        }
    } else if (c < 0) != (len < 0) {
        0 - (quotient as i64)
    } else {
        quotient as i64
    };
    saturate(signed)
}

impl Vec3 {
    pub fn new(x: i32, y: i32, z: i32) -> (v: Vec3)
        ensures
            v == (Vec3 { x, y, z }),
    {
        Vec3 { x, y, z }
    }

    /// The origin.
    pub fn zero() -> (v: Vec3)
        ensures
            v == (Vec3 { x: 0, y: 0, z: 0 }),
    {
        Vec3 { x: 0, y: 0, z: 0 }
    }

    /// Square of the distance to `other`; it always fits.
    pub fn distance_squared(self, other: Vec3) -> (d: u128)
        ensures
            d == distance_squared(self, other),
    {
        let dx: u128 = square_of_difference(self.x, other.x);
        let dy: u128 = square_of_difference(self.y, other.y);
        let dz: u128 = square_of_difference(self.z, other.z);
        dx + dy + dz
    }

    /// Square of the distance to the origin.
    pub fn length_squared(self) -> (d: u128)
        ensures
            d == length_squared(self),
    {
        let d: u128 = self.distance_squared(Vec3 { x: 0, y: 0, z: 0 });
        d
    }

    /// `self - other`, each coordinate saturated at the bounds of `i32`.
    pub fn minus(self, other: Vec3) -> (v: Vec3)
        ensures
            v == difference(self, other),
    {
        Vec3 {
            x: saturate(self.x as i64 - other.x as i64),
            y: saturate(self.y as i64 - other.y as i64),
            z: saturate(self.z as i64 - other.z as i64),
        }
    }

    /// `self + other`, each coordinate saturated at the bounds of `i32`.
    pub fn plus(self, other: Vec3) -> (v: Vec3)
        ensures
            v == sum(self, other),
    {
        Vec3 {
            x: saturate(self.x as i64 + other.x as i64),
            y: saturate(self.y as i64 + other.y as i64),
            z: saturate(self.z as i64 + other.z as i64),
        }
    }

    /// This vector rescaled to length `len`.
    pub fn scale_to_length(self, len: i32) -> (v: Vec3)
        ensures
            v == scaled_to_length(self, len as int),
    {
        let n: u128 = self.length_squared();
        if n == 0 {
            Vec3 { x: 0, y: 0, z: 0 }
        } else {
            proof {
                lemma_square_bound(self.x as int, 0x8000_0000);
                lemma_square_bound(self.y as int, 0x8000_0000);
                lemma_square_bound(self.z as int, 0x8000_0000);
            }
            let s: u128 = ceil_sqrt_u128(n * FINE_SQUARED);
            assert(0 < s) by (nonlinear_arith)
                requires
                    0 < n * FINE_SQUARED <= s * s,
                    0 <= s,
            ;
            Vec3 {
                x: scale_one(self.x, len, s),
                y: scale_one(self.y, len, s),
                z: scale_one(self.z, len, s),
            }
        }
    }

    /// `self + step * k`, each coordinate saturated at the bounds of `i32`.
    pub fn add_scaled(self, step: Vec3, k: u32) -> (v: Vec3)
        ensures
            v.x == advance(self.x as int, step.x as int, k as int),
            v.y == advance(self.y as int, step.y as int, k as int),
            v.z == advance(self.z as int, step.z as int, k as int),
    {
        Vec3 {
            x: advance_coordinate(self.x, step.x, k),
            y: advance_coordinate(self.y, step.y, k),
            z: advance_coordinate(self.z, step.z, k),
        }
    }
}

} // verus!
