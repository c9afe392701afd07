use scorcher_core::fixed::{div_trunc_i64, isqrt_u64};
use scorcher_core::rot::Rot;
use scorcher_core::vec3::{lerp, V3};

#[test]
fn div_trunc_rounds_toward_zero() {
    assert_eq!(div_trunc_i64(7, 2), 3);
    assert_eq!(div_trunc_i64(-7, 2), -3);
    assert_eq!(div_trunc_i64(0, 5), 0);
    assert_eq!(div_trunc_i64(99, 100), 0);
    assert_eq!(div_trunc_i64(-99, 100), 0);
    assert_eq!(div_trunc_i64(-200, 100), -2);
}

#[test]
fn isqrt_exact_and_floor_values() {
    assert_eq!(isqrt_u64(0), 0);
    assert_eq!(isqrt_u64(1), 1);
    assert_eq!(isqrt_u64(3), 1);
    assert_eq!(isqrt_u64(4), 2);
    assert_eq!(isqrt_u64(999_999), 999);
    assert_eq!(isqrt_u64(1_000_000), 1000);
    assert_eq!(isqrt_u64(144_000_000), 12000);
    assert_eq!(isqrt_u64(u64::MAX), 4_294_967_295);
}

#[test]
fn lerp_endpoints_are_exact() {
    let a = V3::new(10, 20, 30);
    let b = V3::new(-10, 0, 1000);
    assert_eq!(lerp(a, b, 0), a);
    assert_eq!(lerp(a, b, 1000), b);
}

#[test]
fn lerp_halfway() {
    let a = V3::new(10, 20, 30);
    let b = V3::new(-10, 0, 1000);
    assert_eq!(lerp(a, b, 500), V3::new(0, 10, 515));
}

#[test]
fn rotation_identity_scales_only() {
    let v = V3::new(1, 2, 3);
    let r = Rot::identity().apply(v);
    assert_eq!(r, V3::new(1000, 2000, 3000));
}

#[test]
fn rotation_round_trip_returns_original() {
    // (600, 800) is an exact unit pair: 600^2 + 800^2 == 1000^2.
    let rot = Rot { c: 600, s: 800 };
    let v = V3::new(3, 5, 7);
    let once = rot.apply(v);
    assert_eq!(once, V3::new(7400, 5000, 1800));
    let back = rot.inverse().apply(once);
    // Two exact applications scale by SCALE^2; the direction is restored.
    assert_eq!(back, V3::new(3_000_000, 5_000_000, 7_000_000));
}

#[test]
fn rotation_quarter_turn() {
    // A quarter turn left: cosine 0, sine 1. Local forward (-Z) maps to -X.
    let rot = Rot { c: 0, s: 1000 };
    let fwd = V3::new(0, 0, -30_000);
    let world = rot.apply(fwd);
    assert_eq!(world, V3::new(-30_000_000, 0, 0));
}
