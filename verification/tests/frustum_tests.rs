use render_core::fixed::FX_ONE;
use render_core::frustum::{CullingResult, Frustum, Plane};
use render_core::linalg::{Mat4, Vec3};
use render_core::mesh::AABB;

fn fx(v: i64) -> i64 {
    v * FX_ONE
}

#[test]
fn test_plane_distance() {
    // the plane z = 0
    let plane = Plane::new(Vec3::new(0, 0, fx(1)), 0);

    let point_front = Vec3::new(0, 0, fx(1));
    let point_back = Vec3::new(0, 0, fx(-1));
    let point_on = Vec3::new(0, 0, 0);

    assert!(plane.distance_to_point(point_front) > 0);
    assert!(plane.distance_to_point(point_back) < 0);
    assert!(plane.distance_to_point(point_on) == 0);
}

#[test]
fn test_frustum_extract() {
    let identity = Mat4::identity();
    let frustum = Frustum::from_view_proj(&identity);

    assert_eq!(frustum.planes.len(), 6);
}

#[test]
fn test_aabb_frustum_simple() {
    let identity = Mat4::identity();
    let frustum = Frustum::from_view_proj(&identity);

    // a box around the origin is visible
    let aabb_center = AABB::new(
        Vec3::new(-FX_ONE / 2, -FX_ONE / 2, -FX_ONE / 2),
        Vec3::new(FX_ONE / 2, FX_ONE / 2, FX_ONE / 2),
    );
    assert!(frustum.is_visible(&aabb_center));

    // a very distant box may be culled, depending on the frustum
    let aabb_far = AABB::new(
        Vec3::new(fx(1000), fx(1000), fx(1000)),
        Vec3::new(fx(1001), fx(1001), fx(1001)),
    );
    let _ = frustum.test_aabb(&aabb_far);
}

#[test]
fn test_plane_normalize() {
    let plane = Plane::new(Vec3::new(fx(2), 0, 0), fx(4));
    let normalized = plane.normalize();

    // the normal now has unit length
    assert_eq!(normalized.normal.x, fx(1));
    assert_eq!(normalized.normal.y, 0);
    assert_eq!(normalized.normal.z, 0);

    // the distance scales along with it
    assert_eq!(normalized.distance, fx(2));
}

#[test]
fn identity_frustum_unit_box_not_outside() {
    // identity view-projection; box from (-1,-1,-1) to (1,1,1)
    let frustum = Frustum::from_view_proj(&Mat4::identity());
    let aabb = AABB::new(Vec3::new(fx(-1), fx(-1), fx(-1)), Vec3::new(fx(1), fx(1), fx(1)));
    let r = frustum.test_aabb(&aabb);
    assert_ne!(r, CullingResult::Outside);
}

#[test]
fn box_behind_one_plane_is_outside() {
    let frustum = Frustum::from_view_proj(&Mat4::identity());
    // the left plane is x + 1 >= 0: a box entirely at x < -1 is rejected
    let aabb = AABB::new(Vec3::new(fx(-5), 0, 0), Vec3::new(fx(-3), fx(1), fx(1)));
    assert_eq!(frustum.test_aabb(&aabb), CullingResult::Outside);
    assert!(!frustum.is_visible(&aabb));
}

#[test]
fn small_central_box_is_inside() {
    let frustum = Frustum::from_view_proj(&Mat4::identity());
    // every corner keeps a positive distance to all six planes
    let q = FX_ONE / 4;
    let aabb = AABB::new(Vec3::new(-q, -q, q), Vec3::new(q, q, 2 * q));
    assert_eq!(frustum.test_aabb(&aabb), CullingResult::Inside);
}

#[test]
fn zero_normal_plane_stays_unchanged() {
    let plane = Plane::new(Vec3::new(0, 0, 0), fx(3));
    let normalized = plane.normalize();
    assert_eq!(normalized.normal.x, 0);
    assert_eq!(normalized.distance, fx(3));
}
