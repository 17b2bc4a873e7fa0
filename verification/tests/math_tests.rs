use render_core::fixed::{fx_add, fx_div, fx_mul, fx_neg, fx_sub, isqrt_u128, FX_ONE};
use render_core::linalg::{Mat4, Quat, Vec3};
use render_core::mesh::AABB;

fn fx(v: i64) -> i64 {
    v * FX_ONE
}

#[test]
fn fixed_point_arithmetic_basics() {
    assert_eq!(fx_add(fx(2), fx(3)), fx(5));
    assert_eq!(fx_sub(fx(2), fx(3)), fx(-1));
    assert_eq!(fx_neg(fx(4)), fx(-4));
    assert_eq!(fx_mul(fx(6), fx(7)), fx(42));
    assert_eq!(fx_mul(fx(-6), fx(7)), fx(-42));
    assert_eq!(fx_mul(FX_ONE / 2, FX_ONE / 2), FX_ONE / 4);
    assert_eq!(fx_div(fx(42), fx(6)), fx(7));
    assert_eq!(fx_div(fx(1), fx(2)), FX_ONE / 2);
    assert_eq!(fx_div(fx(-1), fx(2)), -(FX_ONE / 2));
}

#[test]
fn fixed_point_saturates_instead_of_wrapping() {
    assert_eq!(fx_add(i64::MAX, 1), i64::MAX);
    assert_eq!(fx_sub(i64::MIN, 1), i64::MIN);
    assert_eq!(fx_neg(i64::MIN), i64::MAX);
    assert_eq!(fx_mul(i64::MAX, fx(2)), i64::MAX);
    assert_eq!(fx_mul(i64::MAX, fx(-2)), i64::MIN);
}

#[test]
fn fixed_point_multiplication_truncates_toward_zero() {
    // 1.5 * 0.00001526... keeps the sign of the exact product
    assert_eq!(fx_mul(3, 1), 0);
    assert_eq!(fx_mul(-3, 1), 0);
    assert_eq!(fx_div(1, fx(3)), 0);
}

#[test]
fn integer_square_root() {
    assert_eq!(isqrt_u128(0), 0);
    assert_eq!(isqrt_u128(1), 1);
    assert_eq!(isqrt_u128(3), 1);
    assert_eq!(isqrt_u128(4), 2);
    assert_eq!(isqrt_u128(99), 9);
    assert_eq!(isqrt_u128(100), 10);
    assert_eq!(isqrt_u128(u64::MAX as u128 * u64::MAX as u128), u64::MAX as u128);
}

#[test]
fn matrix_identity_and_translation() {
    let id = Mat4::identity();
    let t = Mat4::from_translation(Vec3::new(fx(1), fx(2), fx(3)));
    assert_eq!(id.mul_mat(&t), t);
    assert_eq!(t.mul_mat(&id), t);

    let p = t.transform_point(Vec3::new(fx(10), 0, 0));
    assert_eq!((p.x, p.y, p.z), (fx(11), fx(2), fx(3)));
}

#[test]
fn matrix_scale_and_composition() {
    let s = Mat4::from_nonuniform_scale(Vec3::new(fx(2), fx(3), fx(4)));
    let p = s.transform_point(Vec3::new(fx(1), fx(1), fx(1)));
    assert_eq!((p.x, p.y, p.z), (fx(2), fx(3), fx(4)));

    // translate then scale: T * S scales first, then translates
    let t = Mat4::from_translation(Vec3::new(fx(5), 0, 0));
    let m = t.mul_mat(&s);
    let q = m.transform_point(Vec3::new(fx(1), 0, 0));
    assert_eq!(q.x, fx(7));
}

#[test]
fn identity_quaternion_rotates_nothing() {
    let r = Mat4::from_quat(Quat::identity());
    assert_eq!(r, Mat4::identity());
}

#[test]
fn half_turn_quaternion_about_z() {
    // q = (w=0, x=0, y=0, z=1) rotates by half a turn about z
    let r = Mat4::from_quat(Quat::new(0, 0, 0, FX_ONE));
    let p = r.transform_point(Vec3::new(fx(1), fx(2), fx(3)));
    assert_eq!((p.x, p.y, p.z), (fx(-1), fx(-2), fx(3)));
}

#[test]
fn aabb_from_unity_flips_z() {
    let a = AABB::from_unity(&Vec3::new(0, 0, fx(2)), &Vec3::new(fx(1), fx(1), fx(1)));
    assert_eq!((a.min.x, a.min.y, a.min.z), (fx(-1), fx(-1), fx(-3)));
    assert_eq!((a.max.x, a.max.y, a.max.z), (fx(1), fx(1), fx(-1)));
}

#[test]
fn aabb_transform_translates_bounds() {
    let a = AABB::new(Vec3::new(fx(-1), fx(-1), fx(-1)), Vec3::new(fx(1), fx(1), fx(1)));
    let t = Mat4::from_translation(Vec3::new(fx(10), 0, 0));
    let b = a.transform(&t);
    assert_eq!((b.min.x, b.max.x), (fx(9), fx(11)));
    assert_eq!((b.min.y, b.max.y), (fx(-1), fx(1)));
}

#[test]
fn aabb_transform_realigns_under_rotation() {
    // a half turn about z maps the box onto itself
    let a = AABB::new(Vec3::new(fx(-1), fx(-2), fx(-3)), Vec3::new(fx(1), fx(2), fx(3)));
    let r = Mat4::from_quat(Quat::new(0, 0, 0, FX_ONE));
    let b = a.transform(&r);
    assert_eq!((b.min.x, b.max.x), (fx(-1), fx(1)));
    assert_eq!((b.min.y, b.max.y), (fx(-2), fx(2)));
    assert_eq!((b.min.z, b.max.z), (fx(-3), fx(3)));
}
