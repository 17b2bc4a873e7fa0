//! View-frustum extraction and AABB classification.
//!
//! A plane is `normal . point + distance == 0`; a frustum holds six planes
//! (left, right, bottom, top, near, far) taken from the view-projection
//! matrix by the row addition/subtraction construction, each normalised.

use vstd::prelude::*;

use crate::fixed::{
    fx_add_s, fx_div_mag, fx_div_mag_s, fx_mul_s, isqrt_u128, sqrt_floor, FX_ONE,
};
use crate::linalg::{mat_row_s, Mat4, Vec3, Vec4};
use crate::mesh::{aabb_transform_s, AABB};

verus! {

/// A half-space boundary: points with nonnegative signed distance lie on
/// the kept side.
#[derive(Clone, Copy, PartialEq, Eq, Structural, Debug)]
pub struct Plane {
    pub normal: Vec3,
    pub distance: i64,
}

/// Signed distance of a point from a plane.
pub open spec fn plane_dist_s(p: Plane, pt: Vec3) -> int {
    fx_add_s(
        fx_add_s(
            fx_add_s(
                fx_mul_s(p.normal.x as int, pt.x as int),
                fx_mul_s(p.normal.y as int, pt.y as int),
            ),
            fx_mul_s(p.normal.z as int, pt.z as int),
        ),
        p.distance as int,
    )
}

/// Squared length of the plane normal, exact (no saturation).
pub open spec fn plane_norm_sq_s(p: Plane) -> nat {
    ((p.normal.x as int) * (p.normal.x as int) + (p.normal.y as int) * (p.normal.y as int) + (
    p.normal.z as int) * (p.normal.z as int)) as nat
}

/// A plane scaled so that its normal has unit length (rounded down);
/// a zero normal leaves the plane unchanged.
pub open spec fn plane_normalize_s(p: Plane) -> Plane {
    let mag = sqrt_floor(plane_norm_sq_s(p));
    if mag > 0 {
        Plane {
            normal: Vec3 {
                x: fx_div_mag_s(p.normal.x as int, mag as int) as i64,
                y: fx_div_mag_s(p.normal.y as int, mag as int) as i64,
                z: fx_div_mag_s(p.normal.z as int, mag as int) as i64,
            },
            distance: fx_div_mag_s(p.distance as int, mag as int) as i64,
        }
    } else {
        p
    }
}

/// The corner of a box farthest along the plane normal.
pub open spec fn pos_vertex_s(p: Plane, a: AABB) -> Vec3 {
    Vec3 {
        x: if p.normal.x > 0 {
            a.max.x
        } else {
            a.min.x
        },
        y: if p.normal.y > 0 {
            a.max.y
        } else {
            a.min.y
        },
        z: if p.normal.z > 0 {
            a.max.z
        } else {
            a.min.z
        },
    }
}

/// The corner of a box nearest along the plane normal.
pub open spec fn neg_vertex_s(p: Plane, a: AABB) -> Vec3 {
    Vec3 {
        x: if p.normal.x > 0 {
            a.min.x
        } else {
            a.max.x
        },
        y: if p.normal.y > 0 {
            a.min.y
        } else {
            a.max.y
        },
        z: if p.normal.z > 0 {
            a.min.z
        } else {
            a.max.z
        },
    }
}

/// The whole box lies behind the plane.
pub open spec fn plane_rejects_s(p: Plane, a: AABB) -> bool {
    plane_dist_s(p, pos_vertex_s(p, a)) < 0
}

/// The plane cuts the box: its nearest corner is behind.
pub open spec fn plane_cuts_s(p: Plane, a: AABB) -> bool {
    plane_dist_s(p, neg_vertex_s(p, a)) < 0
}

impl Plane {
    pub fn new(normal: Vec3, distance: i64) -> (r: Plane)
        ensures
            r == (Plane { normal, distance }),
    {
        Plane { normal, distance }
    }

    /// The first three components give the normal, the fourth the distance.
    pub fn from_vector4(v: Vec4) -> (r: Plane)
        ensures
            r == (Plane { normal: Vec3 { x: v.x, y: v.y, z: v.z }, distance: v.w }),
    {
        Plane { normal: Vec3 { x: v.x, y: v.y, z: v.z }, distance: v.w }
    }

    /// Scale the plane equation so the normal has unit length.
    pub fn normalize(&self) -> (r: Plane)
        ensures
            r == plane_normalize_s(*self),
    {
        proof {
            assert forall|v: int| #[trigger] (v * v) >= 0 by {
                assert(v * v >= 0) by (nonlinear_arith);
            }
            assert forall|v: int|
                (i64::MIN as int) <= v <= (i64::MAX as int) implies #[trigger] (v * v)
                <= 0x4000_0000_0000_0000_0000_0000_0000_0000int by {
                assert(v * v <= (i64::MIN as int) * (i64::MIN as int)) by (nonlinear_arith)
                    requires
                        (i64::MIN as int) <= v <= (i64::MAX as int),
                ;
            }
        }
        let sx: u128 = ((self.normal.x as i128) * (self.normal.x as i128)) as u128;
        let sy: u128 = ((self.normal.y as i128) * (self.normal.y as i128)) as u128;
        let sz: u128 = ((self.normal.z as i128) * (self.normal.z as i128)) as u128;
        let sq: u128 = sx + sy + sz;
        let mag: u128 = isqrt_u128(sq);
        if mag > 0 {
            Plane {
                normal: Vec3 {
                    x: fx_div_mag(self.normal.x, mag),
                    y: fx_div_mag(self.normal.y, mag),
                    z: fx_div_mag(self.normal.z, mag),
                },
                distance: fx_div_mag(self.distance, mag),
            }
        } else {
            Plane { normal: self.normal, distance: self.distance }
        }
    }

    /// Signed distance of a point: positive in front of the plane (along
    /// the normal), negative behind it.
    pub fn distance_to_point(&self, point: Vec3) -> (r: i64)
        ensures
            r as int == plane_dist_s(*self, point),
    {
        crate::fixed::fx_add(
            crate::fixed::fx_add(
                crate::fixed::fx_add(
                    crate::fixed::fx_mul(self.normal.x, point.x),
                    crate::fixed::fx_mul(self.normal.y, point.y),
                ),
                crate::fixed::fx_mul(self.normal.z, point.z),
            ),
            self.distance,
        )
    }
}

/// How a box relates to the frustum volume.
#[derive(Debug, Clone, Copy, PartialEq, Eq, Structural)]
pub enum CullingResult {
    Outside,
    Intersecting,
    Inside,
}

/// The view frustum: exactly six planes, in the order left, right,
/// bottom, top, near, far.
#[derive(Clone, Debug)]
pub struct Frustum {
    pub planes: [Plane; 6],
}

/// Classification of a box against all six planes: behind any single plane
/// is `Outside`; otherwise cut by some plane is `Intersecting`; otherwise
/// `Inside`.
pub open spec fn classify_s(f: Frustum, a: AABB) -> CullingResult {
    if exists|i: int| 0 <= i < 6 && plane_rejects_s(f.planes[i], a) {
        CullingResult::Outside
    } else if exists|i: int| 0 <= i < 6 && plane_cuts_s(f.planes[i], a) {
        CullingResult::Intersecting
    } else {
        CullingResult::Inside
    }
}

impl Frustum {
    /// Extract the six frustum planes from a view-projection matrix
    /// (row addition/subtraction construction), each normalised.
    pub fn from_view_proj(view_proj: &Mat4) -> (r: Frustum)
        ensures
            r.planes[0] == plane_normalize_s(
                Plane::row_plane_s(vec4_sum_row_s(*view_proj, 3, 0, true)),
            ),
            r.planes[1] == plane_normalize_s(
                Plane::row_plane_s(vec4_sum_row_s(*view_proj, 3, 0, false)),
            ),
            r.planes[2] == plane_normalize_s(
                Plane::row_plane_s(vec4_sum_row_s(*view_proj, 3, 1, true)),
            ),
            r.planes[3] == plane_normalize_s(
                Plane::row_plane_s(vec4_sum_row_s(*view_proj, 3, 1, false)),
            ),
            r.planes[4] == plane_normalize_s(Plane::row_plane_s(mat_row_s(*view_proj, 2))),
            r.planes[5] == plane_normalize_s(
                Plane::row_plane_s(vec4_sum_row_s(*view_proj, 3, 2, false)),
            ),
    {
        let row0 = view_proj.row(0);
        let row1 = view_proj.row(1);
        let row2 = view_proj.row(2);
        let row3 = view_proj.row(3);

        let planes = [
            Plane::from_vector4(row3.add_vec(&row0)).normalize(),
            Plane::from_vector4(row3.sub_vec(&row0)).normalize(),
            Plane::from_vector4(row3.add_vec(&row1)).normalize(),
            Plane::from_vector4(row3.sub_vec(&row1)).normalize(),
            Plane::from_vector4(row2).normalize(),
            Plane::from_vector4(row3.sub_vec(&row2)).normalize(),
        ];

        Frustum { planes }
    }

    /// Classify a box against the frustum, with early exit on the first
    /// rejecting plane.
    pub fn test_aabb(&self, aabb: &AABB) -> (r: CullingResult)
        ensures
            r == classify_s(*self, *aabb),
    {
        let mut fully_inside = true;
        let mut k: usize = 0;
        while k < 6
            invariant
                k <= 6,
                forall|i: int| 0 <= i < k ==> !plane_rejects_s(self.planes[i], *aabb),
                fully_inside == !(exists|i: int|
                    0 <= i < k && plane_cuts_s(self.planes[i], *aabb)),
            decreases 6 - k,
        {
            let plane = &self.planes[k];

            let p = Vec3 {
                x: if plane.normal.x > 0 {
                    aabb.max.x
                } else {
                    aabb.min.x
                },
                y: if plane.normal.y > 0 {
                    aabb.max.y
                } else {
                    aabb.min.y
                },
                z: if plane.normal.z > 0 {
                    aabb.max.z
                } else {
                    aabb.min.z
                },
            };

            if plane.distance_to_point(p) < 0 {
                return CullingResult::Outside;
            }

            let n = Vec3 {
                x: if plane.normal.x > 0 {
                    aabb.min.x
                } else {
                    aabb.max.x
                },
                y: if plane.normal.y > 0 {
                    aabb.min.y
                } else {
                    aabb.max.y
                },
                z: if plane.normal.z > 0 {
                    aabb.min.z
                } else {
                    aabb.max.z
                },
            };

            if plane.distance_to_point(n) < 0 {
                fully_inside = false;
            }

            k = k + 1;
        }

        if fully_inside {
            CullingResult::Inside
        } else {
            CullingResult::Intersecting
        }
    }

    /// A box is visible unless it lies fully outside.
    pub fn is_visible(&self, aabb: &AABB) -> (r: bool)
        ensures
            r == (classify_s(*self, *aabb) != CullingResult::Outside),
    {
        let t = self.test_aabb(aabb);
        match t {
            CullingResult::Outside => false,
            _ => true,
        }
    }
}

/// Row `i` plus or minus row `j` of a matrix.
pub open spec fn vec4_sum_row_s(m: Mat4, i: int, j: int, plus: bool) -> Vec4 {
    if plus {
        crate::linalg::vec4_add_s(mat_row_s(m, i), mat_row_s(m, j))
    } else {
        crate::linalg::vec4_sub_s(mat_row_s(m, i), mat_row_s(m, j))
    }
}

impl Plane {
    /// The plane read off a four-component row.
    pub open spec fn row_plane_s(v: Vec4) -> Plane {
        Plane { normal: Vec3 { x: v.x, y: v.y, z: v.z }, distance: v.w }
    }
}


/// Every corner of the box lies on the kept side of every plane.
pub open spec fn enclosed_s(f: Frustum, a: AABB) -> bool {
    forall|i: int, k: int| 0 <= i < 6 && 0 <= k < 8 ==> #[trigger] plane_dist_s(f.planes[i], crate::mesh::corner_s(a, k)) >= 0
}

/// A box enclosed by all six half-spaces classifies as `Inside`.
pub proof fn lemma_enclosed_inside(f: Frustum, a: AABB)
    requires
        enclosed_s(f, a),
    ensures
        classify_s(f, a) == CullingResult::Inside,
{
    assert forall|i: int| 0 <= i < 6 implies !plane_rejects_s(f.planes[i], a) by {
        let p = f.planes[i];
        let k: int = (if p.normal.x > 0 { 1int } else { 0int }) + (if p.normal.y > 0 { 2int } else { 0int }) + (if p.normal.z > 0 { 4int } else { 0int });
        assert(pos_vertex_s(p, a) == crate::mesh::corner_s(a, k));
        assert(plane_dist_s(p, crate::mesh::corner_s(a, k)) >= 0);
    }
    assert forall|i: int| 0 <= i < 6 implies !plane_cuts_s(f.planes[i], a) by {
        let p = f.planes[i];
        let k: int = (if p.normal.x > 0 { 0int } else { 1int }) + (if p.normal.y > 0 { 0int } else { 2int }) + (if p.normal.z > 0 { 0int } else { 4int });
        assert(neg_vertex_s(p, a) == crate::mesh::corner_s(a, k));
        assert(plane_dist_s(p, crate::mesh::corner_s(a, k)) >= 0);
    }
}

/// A box whose positive vertex lies behind any single plane classifies as
/// `Outside`.
pub proof fn lemma_rejected_outside(f: Frustum, a: AABB, i: int)
    requires
        0 <= i < 6,
        plane_rejects_s(f.planes[i], a),
    ensures
        classify_s(f, a) == CullingResult::Outside,
{
}

} // verus!
