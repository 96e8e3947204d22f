use asteroids_core::vector::{ceil_sqrt_u128, saturate, Vec3, FINE, FINE_SQUARED, UNIT};

#[test]
fn saturate_clamps_to_the_bounds_of_i32() {
    assert_eq!(saturate(5), 5);
    assert_eq!(saturate(-5), -5);
    assert_eq!(saturate(i32::MAX as i64 + 1), i32::MAX);
    assert_eq!(saturate(i64::MAX), i32::MAX);
    assert_eq!(saturate(i64::MIN), i32::MIN);
}

#[test]
fn ceil_sqrt_rounds_up() {
    assert_eq!(ceil_sqrt_u128(0), 0);
    assert_eq!(ceil_sqrt_u128(1), 1);
    assert_eq!(ceil_sqrt_u128(2), 2);
    assert_eq!(ceil_sqrt_u128(25), 5);
    assert_eq!(ceil_sqrt_u128(26), 6);
    assert_eq!(ceil_sqrt_u128(1_000_000), 1_000);
    assert_eq!(ceil_sqrt_u128(u128::MAX), 1u128 << 64);
}

#[test]
fn one_world_unit_is_a_thousand_length_units() {
    assert_eq!(UNIT, 1000);
    assert_eq!(FINE, 1 << 30);
    assert_eq!(FINE_SQUARED, FINE * FINE);
}

#[test]
fn distance_squared_is_exact_at_the_extremes() {
    let a = Vec3::new(i32::MIN, i32::MIN, i32::MIN);
    let b = Vec3::new(i32::MAX, i32::MAX, i32::MAX);
    let side: u128 = (1u128 << 32) - 1;
    assert_eq!(a.distance_squared(b), 3 * side * side);
    assert_eq!(b.distance_squared(a), 3 * side * side);
    assert_eq!(Vec3::new(1, 2, 3).distance_squared(Vec3::new(4, 6, 3)), 25);
    assert_eq!(Vec3::new(3, 0, -4).length_squared(), 25);
}

#[test]
fn scale_to_length_keeps_exact_directions() {
    assert_eq!(Vec3::new(3, 0, 4).scale_to_length(10), Vec3::new(6, 0, 8));
    assert_eq!(Vec3::new(3, 0, -4).scale_to_length(-10), Vec3::new(-6, 0, 8));
    assert_eq!(Vec3::new(0, 0, 0).scale_to_length(10), Vec3::new(0, 0, 0));
    assert_eq!(Vec3::new(0, 0, 1000).scale_to_length(8000), Vec3::new(0, 0, 8000));
}

#[test]
fn scale_to_length_rounds_towards_zero() {
    // 10 / sqrt(2) = 7.07...
    assert_eq!(Vec3::new(1, 0, 1).scale_to_length(10), Vec3::new(7, 0, 7));
    assert_eq!(Vec3::new(1, 1, 1).scale_to_length(1000), Vec3::new(577, 577, 577));
    assert_eq!(Vec3::new(7, 0, 0).scale_to_length(10), Vec3::new(10, 0, 0));
    // The length is sqrt(58) = 7.61...: 70 / 7.61 = 9.19 and 30 / 7.61 = 3.93.
    assert_eq!(Vec3::new(-7, 0, 3).scale_to_length(10), Vec3::new(-9, 0, 3));
    assert_eq!(Vec3::new(-7, 0, 3).scale_to_length(-10), Vec3::new(9, 0, -3));
}

#[test]
fn scale_to_length_is_exact_at_the_extremes() {
    assert_eq!(
        Vec3::new(i32::MIN, 0, 0).scale_to_length(i32::MIN),
        Vec3::new(i32::MAX, 0, 0)
    );
    assert_eq!(
        Vec3::new(i32::MIN, 0, 0).scale_to_length(i32::MAX),
        Vec3::new(-i32::MAX, 0, 0)
    );
    assert_eq!(Vec3::new(0, 1, 0).scale_to_length(i32::MAX), Vec3::new(0, i32::MAX, 0));
    assert_eq!(Vec3::new(0, -1, 0).scale_to_length(i32::MIN), Vec3::new(0, i32::MAX, 0));
    assert_eq!(Vec3::new(0, 1, 0).scale_to_length(i32::MIN), Vec3::new(0, i32::MIN, 0));
}

#[test]
fn scale_to_length_never_lengthens_beyond_the_request() {
    let samples = [
        Vec3::new(1, 0, 1),
        Vec3::new(-999, 0, 57),
        Vec3::new(123_456, -7, 99),
        Vec3::new(i32::MAX, i32::MIN, i32::MAX),
    ];
    for v in samples {
        let scaled = v.scale_to_length(20);
        assert!(scaled.length_squared() <= 400);
    }
}

#[test]
fn scale_to_length_falls_less_than_four_units_short() {
    let samples = [
        Vec3::new(1, 0, 1),
        Vec3::new(1, 1, 1),
        Vec3::new(-999, 0, 57),
        Vec3::new(3, -4, 12),
        Vec3::new(123_456, -7, 99),
        Vec3::new(i32::MAX, i32::MIN, i32::MAX),
        Vec3::new(i32::MIN, 0, 0),
    ];
    for v in samples {
        for len in [4, 20, 50, 8_000, 81_000, i32::MAX, -20, i32::MIN] {
            let wanted = (len as i128).abs();
            let got = v.scale_to_length(len).length_squared() as i128;
            assert!(got <= wanted * wanted);
            assert!(got >= (wanted - 4) * (wanted - 4));
        }
    }
    // The worst case for a speed of 20: every coordinate loses almost a unit.
    assert_eq!(Vec3::new(1, 1, 1).scale_to_length(20), Vec3::new(11, 11, 11));
}

#[test]
fn add_scaled_is_exact_and_saturates() {
    assert_eq!(Vec3::new(1, 2, 3).add_scaled(Vec3::new(10, -10, 0), 3), Vec3::new(31, -28, 3));
    assert_eq!(
        Vec3::new(i32::MAX - 1, i32::MIN + 1, 0).add_scaled(Vec3::new(1, -1, i32::MAX), u32::MAX),
        Vec3::new(i32::MAX, i32::MIN, i32::MAX)
    );
    assert_eq!(Vec3::new(5, 5, 5).add_scaled(Vec3::new(9, 9, 9), 0), Vec3::new(5, 5, 5));
}

#[test]
fn plus_and_minus_saturate() {
    assert_eq!(Vec3::new(1, 2, 3).plus(Vec3::new(4, 5, 6)), Vec3::new(5, 7, 9));
    assert_eq!(Vec3::new(1, 2, 3).minus(Vec3::new(4, 5, 6)), Vec3::new(-3, -3, -3));
    assert_eq!(
        Vec3::new(i32::MAX, i32::MIN, 0).plus(Vec3::new(1, -1, 0)),
        Vec3::new(i32::MAX, i32::MIN, 0)
    );
    assert_eq!(
        Vec3::new(i32::MIN, i32::MAX, 0).minus(Vec3::new(1, -1, 0)),
        Vec3::new(i32::MIN, i32::MAX, 0)
    );
    assert_eq!(Vec3::zero(), Vec3::new(0, 0, 0));
}
