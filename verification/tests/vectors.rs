use aquarium::fixed::{
    add_fixed, div_away_fixed, isqrt, isqrt_ceil, mul_div_fixed, mul_fixed, sub_fixed,
};
use aquarium::random::Rng;
use aquarium::vectors::Vector2;

#[test]
fn isqrt_rounds_down() {
    assert_eq!(isqrt(0), 0);
    assert_eq!(isqrt(1), 1);
    assert_eq!(isqrt(2), 1);
    assert_eq!(isqrt(15), 3);
    assert_eq!(isqrt(16), 4);
    assert_eq!(isqrt(25_000_000), 5000);
    assert_eq!(isqrt(u128::MAX), u64::MAX);
}

#[test]
fn fixed_point_products_round_toward_zero() {
    assert_eq!(mul_fixed(1500, 1500), 2250);
    assert_eq!(mul_fixed(-1500, 1500), -2250);
    assert_eq!(mul_fixed(1, 999), 0);
    assert_eq!(mul_fixed(-1, 999), 0);
    assert_eq!(mul_div_fixed(1000, 1000, 3000), 333);
    assert_eq!(mul_div_fixed(-1000, 1000, 3000), -333);
    assert_eq!(mul_div_fixed(1000, 1000, -3000), -333);
    assert_eq!(mul_div_fixed(40_000, 2, 3), 26_666);
    assert_eq!(mul_div_fixed(-7, 1, 2), -3);
}

#[test]
fn division_away_from_zero_loses_nothing() {
    assert_eq!(div_away_fixed(1000, 3000), 334);
    assert_eq!(div_away_fixed(-1000, 3000), -334);
    assert_eq!(div_away_fixed(1000, -3000), -334);
    assert_eq!(div_away_fixed(1, i64::MAX), 1);
    assert_eq!(div_away_fixed(6000, 3000), 2000);
    assert_eq!(div_away_fixed(0, 3000), 0);
    assert_eq!(div_away_fixed(i64::MAX, 1), i64::MAX);
    assert_eq!(isqrt_ceil(0), 0);
    assert_eq!(isqrt_ceil(1), 1);
    assert_eq!(isqrt_ceil(2), 2);
    assert_eq!(isqrt_ceil(16), 4);
    assert_eq!(isqrt_ceil(17), 5);
    assert_eq!(isqrt_ceil(u128::MAX), 1u128 << 64);
}

#[test]
fn fixed_point_division_by_zero_is_zero() {
    assert_eq!(div_away_fixed(5000, 0), 0);
    assert_eq!(mul_div_fixed(5000, 7, 0), 0);
}

#[test]
fn fixed_point_arithmetic_saturates() {
    assert_eq!(mul_fixed(i64::MAX, 2000), i64::MAX);
    assert_eq!(mul_fixed(i64::MIN, 2000), i64::MIN);
    assert_eq!(add_fixed(i64::MAX, 1), i64::MAX);
    assert_eq!(sub_fixed(i64::MIN, 1), i64::MIN);
    assert_eq!(add_fixed(2, 3), 5);
    assert_eq!(sub_fixed(2, 3), -1);
}

#[test]
fn vector_new_and_from_hold_the_components() {
    let v = Vector2::new(3000, -4000);
    assert_eq!(v.get_components(), (3000, -4000));
    assert_eq!(Vector2::from(&v), v);
    assert_eq!(Vector2::default(), Vector2::new(0, 0));
}

#[test]
fn vector_sum_difference_and_negation() {
    let a = Vector2::new(3000, 4000);
    let b = Vector2::new(1000, -2000);
    assert_eq!(a.add(b), Vector2::new(4000, 2000));
    assert_eq!(a.sub(b), Vector2::new(2000, 6000));
    assert_eq!(a.neg(), Vector2::new(-3000, -4000));
    assert_eq!(Vector2::new(i64::MAX, 0).add(Vector2::new(1, 0)), Vector2::new(i64::MAX, 0));
    assert_eq!(Vector2::new(i64::MIN, 0).neg(), Vector2::new(i64::MAX, 0));
}

#[test]
fn operators_mean_what_the_methods_do() {
    let a = Vector2::new(3000, 4000);
    let b = Vector2::new(1000, -2000);
    assert_eq!(a + b, Vector2::new(4000, 2000));
    assert_eq!(a - b, Vector2::new(2000, 6000));
    assert_eq!(-a, Vector2::new(-3000, -4000));
    assert_eq!(a * 500, Vector2::new(1500, 2000));
    assert_eq!(a * b, -5000);
    assert_eq!(a % 2500, Vector2::new(1500, 2000));
    assert_eq!(a % 9000, a);
    assert_eq!(Vector2::default(), Vector2::new(0, 0));
}

#[test]
fn vector_scale_and_div() {
    let a = Vector2::new(3000, -4000);
    assert_eq!(a.scale(500), Vector2::new(1500, -2000));
    assert_eq!(a.scale(-1000), Vector2::new(-3000, 4000));
    assert_eq!(a.div(2000), Vector2::new(1500, -2000));
    assert_eq!(a.div(0), Vector2::new(0, 0));
    assert_eq!(Vector2::new(1, -1).div(3_000_000), Vector2::new(1, -1));
    assert_eq!(Vector2::new(1000, 0).div(3000), Vector2::new(334, 0));
    assert_eq!(Vector2::new(-1000, 7).div(-3000), Vector2::new(334, -3));
}

#[test]
fn vector_dot_and_lengths() {
    let a = Vector2::new(3000, 4000);
    assert_eq!(a.dot(Vector2::new(1000, 2000)), 11_000);
    assert_eq!(a.dot(Vector2::new(-4000, 3000)), 0);
    assert_eq!(a.length_sqr(), 25_000);
    assert_eq!(a.length_sqr_up(), 25_000);
    assert_eq!(Vector2::new(20, 0).length_sqr(), 0);
    assert_eq!(Vector2::new(20, 0).length_sqr_up(), 1);
    assert_eq!(Vector2::new(0, 0).length_sqr_up(), 0);
    assert_eq!(Vector2::new(i64::MIN, i64::MIN).length_sqr_up(), i64::MAX);
    assert_eq!(a.length(), 5000);
    assert_eq!(a.length_sqr_wide(), 25_000_000);
    assert_eq!(a.length_wide(), 5000);
    assert_eq!(Vector2::new(i64::MIN, i64::MIN).dot(Vector2::new(i64::MIN, i64::MIN)), i64::MAX);
    assert_eq!(Vector2::new(i64::MIN, i64::MIN).length(), i64::MAX);
}

#[test]
fn norm_of_a_vector_has_length_one() {
    let n = Vector2::new(3000, 4000).norm();
    assert_eq!(n, Vector2::new(600, 800));
    assert_eq!(n.length(), 1000);
    let m = Vector2::new(-123_456, 987_654).norm();
    assert!(m.length() >= 997 && m.length() <= 1000);
    assert_eq!(Vector2::new(1, 1).norm(), Vector2::new(707, 707));
    assert_eq!(Vector2::new(1, 0).norm(), Vector2::new(1000, 0));
    assert_eq!(Vector2::new(0, -1).norm(), Vector2::new(0, -1000));
    let vs = [
        Vector2::new(1, 1),
        Vector2::new(-1, 2),
        Vector2::new(7, -9),
        Vector2::new(300, 1),
        Vector2::new(2_147_483_647, 1),
        Vector2::new(2_147_483_648, -5),
        Vector2::new(i64::MAX, i64::MIN),
        Vector2::new(i64::MIN, 1),
    ];
    for v in vs {
        let n = v.norm();
        assert!(n.length() >= 997 && n.length() <= 1000);
        assert!(n.length_sqr_wide() <= 1_000_000);
    }
}

#[test]
fn norm_of_the_zero_vector_is_zero() {
    assert_eq!(Vector2::new(0, 0).norm(), Vector2::new(0, 0));
    assert_eq!(Vector2::new(0, 0).mag(5000), Vector2::new(0, 0));
}

#[test]
fn mag_scales_to_the_length() {
    let v = Vector2::new(3000, 4000).mag(10_000);
    assert_eq!(v, Vector2::new(6000, 8000));
    assert_eq!(v.length(), 10_000);
}

#[test]
fn mag_is_the_target_long_up_to_rounding() {
    let vs = [
        Vector2::new(1, 1),
        Vector2::new(-7, 9),
        Vector2::new(3000, 4000),
        Vector2::new(-123_456, 987_654),
        Vector2::new(i64::MAX, i64::MIN),
    ];
    for v in vs {
        for target in [9, 10, 1000, 5000, 250_000, 1_000_000_000, 2_147_483_648] {
            let scaled = v.mag(target);
            assert!(scaled.length() + 4 >= target);
            assert!(scaled.length() <= target);
        }
        assert!(v.mag(i64::MAX).length() <= i64::MAX);
        assert_eq!(v.mag(0), Vector2::new(0, 0));
    }
    assert_eq!(Vector2::new(3000, 4000).mag(-10_000), Vector2::new(-6000, -8000));
    assert_eq!(Vector2::new(5, 0).mag(7_000), Vector2::new(7_000, 0));
    assert_eq!(Vector2::new(1, 1).stretch(), Vector2::new(2_147_483_648, 2_147_483_648));
    assert_eq!(Vector2::new(2_147_483_648, 1).stretch(), Vector2::new(2_147_483_648, 1));
}

#[test]
fn rem_clamps_the_length() {
    let v = Vector2::new(3000, 4000);
    assert_eq!(v.rem(2500), Vector2::new(1500, 2000));
    assert_eq!(v.rem(6000), v);
    assert_eq!(v.rem(5000), v);
    assert_eq!(v.rem(0), Vector2::new(0, 0));
    assert_eq!(v.rem(-3000), Vector2::new(0, 0));
}

#[test]
fn rem_twice_is_rem_once() {
    let vs = [
        Vector2::new(3000, 4000),
        Vector2::new(-123_456, 987_654),
        Vector2::new(1, 1),
        Vector2::new(7, -9),
        Vector2::new(i64::MAX, i64::MIN),
    ];
    let limits = [0, 1, 2, 7, 2500, 5000, 1_000_000, i64::MAX];
    for v in vs {
        for limit in limits {
            let once = v.rem(limit);
            assert_eq!(once.rem(limit), once);
            assert!(once.length_wide() as u128 <= limit as u128 || once == v);
        }
    }
}

#[test]
fn random_points_lie_in_the_disk() {
    let mut rng = Rng::new(42);
    let r: i64 = 250_000;
    for _ in 0..2000 {
        let v = Vector2::random_in_radius(r, &mut rng);
        assert!(v.length_sqr_wide() <= (r as u128) * (r as u128));
        assert!(v.length() <= r);
    }
    assert_eq!(Vector2::random_in_radius(0, &mut rng), Vector2::new(0, 0));
    assert_eq!(Vector2::random_in_radius(-5, &mut rng), Vector2::new(0, 0));
}

#[test]
fn random_points_are_spread_evenly_over_the_area() {
    let mut rng = Rng::new(7);
    let r: i64 = 100_000;
    let n: u128 = 20_000;
    let mut inner: u128 = 0;
    let mut sum: u128 = 0;
    for _ in 0..n {
        let v = Vector2::random_in_radius(r, &mut rng);
        let sq = v.length_sqr_wide();
        sum += sq;
        if 2 * sq <= (r as u128) * (r as u128) {
            inner += 1;
        }
    }
    let mean = (sum / n) as f64;
    let half = (r as f64) * (r as f64) / 2.0;
    assert!((mean - half).abs() < 0.03 * half);
    assert!(inner > n * 47 / 100 && inner < n * 53 / 100);
}

#[test]
fn random_source_is_a_function_of_its_seed() {
    let mut a = Rng::new(99);
    let mut b = Rng::new(99);
    let mut c = Rng::new(100);
    let xa = a.next();
    assert_eq!(xa, b.next());
    assert_ne!(xa, c.next());
    assert_ne!(a.state, 99);
    assert_eq!(a.state, 99u64.wrapping_mul(6364136223846793005).wrapping_add(1442695040888963407));
    assert_eq!(xa, a.state >> 16);
}
