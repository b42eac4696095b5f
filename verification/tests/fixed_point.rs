use render_core::math::{
    fadd, fdiv, fmul, fneg, fsub, isqrt, Quat, Transform, Vec3, FP_LIMIT, FP_ONE,
};

#[test]
fn addition_is_exact_in_range() {
    assert_eq!(fadd(2 * FP_ONE, 500_000), 2_500_000);
    assert_eq!(fsub(FP_ONE, 3 * FP_ONE), -2 * FP_ONE);
    assert_eq!(fneg(7 * FP_ONE), -7 * FP_ONE);
}

#[test]
fn addition_saturates_at_limit() {
    assert_eq!(fadd(FP_LIMIT, 1), FP_LIMIT);
    assert_eq!(fadd(-FP_LIMIT, -1), -FP_LIMIT);
    assert_eq!(fsub(-FP_LIMIT, FP_LIMIT), -FP_LIMIT);
}

#[test]
fn multiplication_rescales() {
    // 2.5 * 4.0 == 10.0
    assert_eq!(fmul(2_500_000, 4 * FP_ONE), 10 * FP_ONE);
    assert_eq!(fmul(0, 123_456), 0);
    assert_eq!(fmul(FP_ONE, 123_456), 123_456);
}

#[test]
fn multiplication_truncates_toward_zero() {
    // (3e-6) * 0.5 == 1.5e-6, which truncates to 1e-6; likewise toward zero
    // for the negative product.
    assert_eq!(fmul(3, 500_000), 1);
    assert_eq!(fmul(-3, 500_000), -1);
    assert_eq!(fmul(3, -500_000), -1);
    assert_eq!(fmul(-3, -500_000), 1);
}

#[test]
fn multiplication_saturates() {
    assert_eq!(fmul(FP_LIMIT, FP_LIMIT), FP_LIMIT);
    assert_eq!(fmul(FP_LIMIT, -FP_LIMIT), -FP_LIMIT);
}

#[test]
fn division_rescales() {
    // 1.0 / 3.0 == 0.333333...
    assert_eq!(fdiv(FP_ONE, 3 * FP_ONE), 333_333);
    assert_eq!(fdiv(-FP_ONE, 3 * FP_ONE), -333_333);
    assert_eq!(fdiv(6 * FP_ONE, 2 * FP_ONE), 3 * FP_ONE);
}

#[test]
fn integer_square_root_is_exact() {
    assert_eq!(isqrt(0), 0);
    assert_eq!(isqrt(1), 1);
    assert_eq!(isqrt(2), 1);
    assert_eq!(isqrt(144), 12);
    assert_eq!(isqrt(145), 12);
    assert_eq!(isqrt(u64::MAX as u128 * u64::MAX as u128), u64::MAX as u128);
}

#[test]
fn normalization_gives_unit_vector() {
    // (3, 4, 0) normalizes to (0.6, 0.8, 0).
    let v = Vec3::new(3 * FP_ONE, 4 * FP_ONE, 0);
    let n = v.normalized();
    assert_eq!(n, Vec3::new(600_000, 800_000, 0));
    assert_eq!(Vec3::zero().normalized(), Vec3::zero());
}

#[test]
fn identity_rotation_keeps_vector() {
    let v = Vec3::new(FP_ONE, -2 * FP_ONE, 3 * FP_ONE);
    assert_eq!(v.rotated(Quat::identity()), v);
}

#[test]
fn quarter_turn_about_y_swings_x_to_minus_z() {
    // sin(45 deg) == cos(45 deg) == 0.707107 for a 90-degree rotation.
    let q = Quat::from_axis_sin_cos(Vec3::new(0, FP_ONE, 0), 707_107, 707_107);
    let r = Vec3::new(FP_ONE, 0, 0).rotated(q);
    // Fixed-point arithmetic lands within rounding of (0, 0, -1).
    assert!(r.x.abs() < 2_000);
    assert!(r.y.abs() < 2_000);
    assert!((r.z + FP_ONE).abs() < 2_000);
}

#[test]
fn pure_translations_compose_by_addition() {
    // A child translated by (1, 0, 0) under a parent translated by
    // (0, 1, 0) sits at (1, 1, 0) in world space.
    let parent = Transform::from_translation(Vec3::new(0, FP_ONE, 0));
    let child = Transform::from_translation(Vec3::new(FP_ONE, 0, 0));
    let world = parent.compose(&child);
    assert_eq!(world.translation, Vec3::new(FP_ONE, FP_ONE, 0));
}

#[test]
fn translate_and_rotate_update_transform() {
    let mut t = Transform::identity();
    t.translate(Vec3::new(5 * FP_ONE, 0, 0));
    t.translate(Vec3::new(0, 0, -2 * FP_ONE));
    assert_eq!(t.translation, Vec3::new(5 * FP_ONE, 0, -2 * FP_ONE));
    t.rotate(Quat::identity());
    assert_eq!(t.translation, Vec3::new(5 * FP_ONE, 0, -2 * FP_ONE));
}

#[test]
fn scaled_vector_multiplies_componentwise() {
    let v = Vec3::new(FP_ONE, 2 * FP_ONE, -3 * FP_ONE);
    assert_eq!(
        v.scaled(2 * FP_ONE),
        Vec3::new(2 * FP_ONE, 4 * FP_ONE, -6 * FP_ONE)
    );
    let unit = Vec3::new(FP_ONE, FP_ONE, FP_ONE);
    assert_eq!(v.vmul(unit), v);
}
