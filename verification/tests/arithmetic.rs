use terrasim::fixed::{clamp, fp_mul, isqrt, UNIT};
use terrasim::rng::lcg_next;
use terrasim::utils::{interpolate, map_range};
use terrasim::vector::{normalize, Vec2, Vec3};

#[test]
fn fp_mul_scales_products_back() {
    assert_eq!(fp_mul(2_000_000, 3_000_000), 6_000_000);
    assert_eq!(fp_mul(500_000, 500_000), 250_000);
    assert_eq!(fp_mul(1, 500_000), 0);
    assert_eq!(fp_mul(999_999, 999_999), 999_998);
}

#[test]
fn fp_mul_truncates_toward_zero() {
    assert_eq!(fp_mul(-1_500_000, 1_000_000), -1_500_000);
    assert_eq!(fp_mul(-1, 500_000), 0);
    assert_eq!(fp_mul(-999_999, 999_999), -999_998);
    assert_eq!(fp_mul(999_999, -999_999), -999_998);
}

#[test]
fn isqrt_matches_integer_square_root() {
    assert_eq!(isqrt(0), 0);
    assert_eq!(isqrt(1), 1);
    assert_eq!(isqrt(3), 1);
    assert_eq!(isqrt(4), 2);
    assert_eq!(isqrt(10), 3);
    assert_eq!(isqrt(16), 4);
    assert_eq!(isqrt(24), 4);
    assert_eq!(isqrt(25), 5);
    assert_eq!(isqrt(u64::MAX), 4_294_967_295);
}

#[test]
fn clamp_saturates_at_both_ends() {
    assert_eq!(clamp(5, 0, 10), 5);
    assert_eq!(clamp(-5, 0, 10), 0);
    assert_eq!(clamp(15, 0, 10), 10);
}

#[test]
fn interpolate_hits_endpoints_and_midpoint() {
    assert_eq!(interpolate(100, 200, 0), 100);
    assert_eq!(interpolate(100, 200, UNIT), 200);
    assert_eq!(interpolate(0, 1_000_000, 500_000), 500_000);
}

#[test]
fn map_range_rescales_linearly() {
    assert_eq!(map_range(-1_000_000, 1_000_000, 0, 255, -1_000_000), 0);
    assert_eq!(map_range(-1_000_000, 1_000_000, 0, 255, 1_000_000), 255);
    assert_eq!(map_range(-1_000_000, 1_000_000, 0, 255, 0), 127);
    assert_eq!(map_range(0, 10, 0, 100, 7), 70);
}

#[test]
fn map_range_handles_reversed_targets_and_outside_values() {
    // a reversed target interval maps downward
    assert_eq!(map_range(0, 10, 100, 0, 7), 30);
    assert_eq!(map_range(0, 10, 100, 0, 0), 100);
    assert_eq!(map_range(0, 10, 100, 0, 10), 0);
    // a value outside the source interval extrapolates
    assert_eq!(map_range(0, 10, 0, 100, 15), 150);
    assert_eq!(map_range(0, 10, 0, 100, -5), -50);
}

#[test]
fn vector_componentwise_operations() {
    let a = Vec2 { x: 3, y: 4 };
    let b = Vec2 { x: 10, y: -20 };
    assert_eq!(a.add(&b), Vec2 { x: 13, y: -16 });
    assert_eq!(a.diff(&b), Vec2 { x: -7, y: 24 });
    let c = Vec2 { x: 2_000_000, y: -3_000_000 };
    assert_eq!(c.scale(500_000), Vec2 { x: 1_000_000, y: -1_500_000 });
    assert_eq!(c.dot(&Vec2 { x: 1_000_000, y: 1_000_000 }), -1_000_000);
    assert_eq!(a.mag_sq(), 25);
    assert_eq!(a.xy(), (3, 4));
}

#[test]
fn vector3_componentwise_operations() {
    let a = Vec3 { x: 1, y: 4, z: 3 };
    let b = Vec3 { x: 2, y: -1, z: 5 };
    assert_eq!(a.add(&b), Vec3 { x: 3, y: 3, z: 8 });
    assert_eq!(a.diff(&b), Vec3 { x: -1, y: 5, z: -2 });
    assert_eq!(
        Vec3 { x: 2_000_000, y: 4_000_000, z: -6_000_000 }.scale(500_000),
        Vec3 { x: 1_000_000, y: 2_000_000, z: -3_000_000 }
    );
    assert_eq!(a.xyz(), (1, 4, 3));
}

#[test]
fn normalize_produces_unit_vectors() {
    let v = normalize(&Vec2 { x: 3, y: 4 });
    assert_eq!(v, Vec2 { x: 600_000, y: 800_000 });
    let axis = normalize(&Vec2 { x: -7, y: 0 });
    assert_eq!(axis, Vec2 { x: -1_000_000, y: 0 });
}

#[test]
fn normalize_keeps_zero_vector_zero() {
    assert_eq!(normalize(&Vec2 { x: 0, y: 0 }), Vec2 { x: 0, y: 0 });
}

#[test]
fn lcg_follows_its_recurrence() {
    assert_eq!(lcg_next(0), 1_013_904_223);
    assert_eq!(lcg_next(1), 1_015_568_748);
    let s = lcg_next(12_345);
    assert_eq!(s, ((12_345u64 * 1_664_525 + 1_013_904_223) % 4_294_967_296) as u32);
}
