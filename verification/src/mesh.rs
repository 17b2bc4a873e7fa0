//! Axis-aligned bounding boxes in mesh-local space, and the record a mesh
//! leaves in the resource cache.

use vstd::prelude::*;

use crate::fixed::{fx_add, fx_add_s, fx_max, fx_max_s, fx_min, fx_min_s, fx_neg, fx_neg_s, fx_sub, fx_sub_s};
use crate::linalg::{transform_point_s, Mat4, Vec3};

verus! {

/// An axis-aligned box given by its two extreme corners.
#[derive(Clone, Copy, PartialEq, Eq, Structural, Debug)]
pub struct AABB {
    pub min: Vec3,
    pub max: Vec3,
}

/// Corner `k` (0 to 7) of a box; bit 0 picks x, bit 1 picks y, bit 2 picks z.
pub open spec fn corner_s(a: AABB, k: int) -> Vec3 {
    Vec3 {
        x: if k % 2 == 1 {
            a.max.x
        } else {
            a.min.x
        },
        y: if (k / 2) % 2 == 1 {
            a.max.y
        } else {
            a.min.y
        },
        z: if (k / 4) % 2 == 1 {
            a.max.z
        } else {
            a.min.z
        },
    }
}

/// Componentwise minimum.
pub open spec fn vec_min_s(a: Vec3, b: Vec3) -> Vec3 {
    Vec3 {
        x: fx_min_s(a.x as int, b.x as int) as i64,
        y: fx_min_s(a.y as int, b.y as int) as i64,
        z: fx_min_s(a.z as int, b.z as int) as i64,
    }
}

/// Componentwise maximum.
pub open spec fn vec_max_s(a: Vec3, b: Vec3) -> Vec3 {
    Vec3 {
        x: fx_max_s(a.x as int, b.x as int) as i64,
        y: fx_max_s(a.y as int, b.y as int) as i64,
        z: fx_max_s(a.z as int, b.z as int) as i64,
    }
}

/// Fold the transformed corners 0 to `k` into a componentwise minimum.
pub open spec fn corners_min_s(m: Mat4, a: AABB, k: int) -> Vec3
    decreases k,
{
    if k <= 0 {
        transform_point_s(m, corner_s(a, 0))
    } else {
        vec_min_s(corners_min_s(m, a, k - 1), transform_point_s(m, corner_s(a, k)))
    }
}

/// Fold the transformed corners 0 to `k` into a componentwise maximum.
pub open spec fn corners_max_s(m: Mat4, a: AABB, k: int) -> Vec3
    decreases k,
{
    if k <= 0 {
        transform_point_s(m, corner_s(a, 0))
    } else {
        vec_max_s(corners_max_s(m, a, k - 1), transform_point_s(m, corner_s(a, k)))
    }
}

/// The box spanned by all 8 transformed corners: a conservative,
/// axis-realigned bound, not a tight oriented box.
pub open spec fn aabb_transform_s(m: Mat4, a: AABB) -> AABB {
    AABB { min: corners_min_s(m, a, 7), max: corners_max_s(m, a, 7) }
}

fn vec_min(a: Vec3, b: Vec3) -> (r: Vec3)
    ensures
        r == vec_min_s(a, b),
{
    Vec3 { x: fx_min(a.x, b.x), y: fx_min(a.y, b.y), z: fx_min(a.z, b.z) }
}

fn vec_max(a: Vec3, b: Vec3) -> (r: Vec3)
    ensures
        r == vec_max_s(a, b),
{
    Vec3 { x: fx_max(a.x, b.x), y: fx_max(a.y, b.y), z: fx_max(a.z, b.z) }
}

impl AABB {
    pub fn new(min: Vec3, max: Vec3) -> (r: AABB)
        ensures
            r == (AABB { min, max }),
    {
        AABB { min, max }
    }

    /// Build from a centre and a (nonnegative) extent, flipping the z axis
    /// to move from the importer's left-handed frame to the renderer's.
    pub fn from_unity(center: &Vec3, extent: &Vec3) -> (r: AABB)
        ensures
            r.min.x as int == fx_sub_s(center.x as int, extent.x as int),
            r.min.y as int == fx_sub_s(center.y as int, extent.y as int),
            r.min.z as int == fx_sub_s(fx_neg_s(center.z as int), extent.z as int),
            r.max.x as int == fx_add_s(center.x as int, extent.x as int),
            r.max.y as int == fx_add_s(center.y as int, extent.y as int),
            r.max.z as int == fx_add_s(fx_neg_s(center.z as int), extent.z as int),
    {
        let center_z = fx_neg(center.z);
        AABB {
            min: Vec3 {
                x: fx_sub(center.x, extent.x),
                y: fx_sub(center.y, extent.y),
                z: fx_sub(center_z, extent.z),
            },
            max: Vec3 {
                x: fx_add(center.x, extent.x),
                y: fx_add(center.y, extent.y),
                z: fx_add(center_z, extent.z),
            },
        }
    }

    /// Transform all 8 corners and take the componentwise extremes.
    #[verifier::rlimit(100)]
    pub fn transform(&self, matrix: &Mat4) -> (r: AABB)
        ensures
            r == aabb_transform_s(*matrix, *self),
    {
        let c0 = matrix.transform_point(Vec3 { x: self.min.x, y: self.min.y, z: self.min.z });
        let c1 = matrix.transform_point(Vec3 { x: self.max.x, y: self.min.y, z: self.min.z });
        let c2 = matrix.transform_point(Vec3 { x: self.min.x, y: self.max.y, z: self.min.z });
        let c3 = matrix.transform_point(Vec3 { x: self.max.x, y: self.max.y, z: self.min.z });
        let c4 = matrix.transform_point(Vec3 { x: self.min.x, y: self.min.y, z: self.max.z });
        let c5 = matrix.transform_point(Vec3 { x: self.max.x, y: self.min.y, z: self.max.z });
        let c6 = matrix.transform_point(Vec3 { x: self.min.x, y: self.max.y, z: self.max.z });
        let c7 = matrix.transform_point(Vec3 { x: self.max.x, y: self.max.y, z: self.max.z });
        let lo = vec_min(
            vec_min(vec_min(vec_min(vec_min(vec_min(vec_min(c0, c1), c2), c3), c4), c5), c6),
            c7,
        );
        let hi = vec_max(
            vec_max(vec_max(vec_max(vec_max(vec_max(vec_max(c0, c1), c2), c3), c4), c5), c6),
            c7,
        );
        proof {
            reveal_with_fuel(corners_min_s, 8);
            reveal_with_fuel(corners_max_s, 8);
        }
        AABB { min: lo, max: hi }
    }
}

} // verus!
