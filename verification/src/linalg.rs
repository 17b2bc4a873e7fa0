//! Vectors, quaternions and 4x4 matrices over the fixed-point scalar.
//!
//! A `Mat4` stores the entry of mathematical row `r`, column `c` in the
//! field `m<r><c>`; points transform as column vectors, so the translation
//! sits in column 3.

use vstd::prelude::*;

use crate::fixed::{fx_add, fx_add_s, fx_mul, fx_mul_s, fx_sub, fx_sub_s, FX_ONE};

verus! {

/// A point or direction with fixed-point components.
#[derive(Clone, Copy, PartialEq, Eq, Structural, Debug)]
pub struct Vec3 {
    pub x: i64,
    pub y: i64,
    pub z: i64,
}

impl Vec3 {
    pub fn new(x: i64, y: i64, z: i64) -> (r: Vec3)
        ensures
            r == (Vec3 { x, y, z }),
    {
        Vec3 { x, y, z }
    }

    /// The zero vector.
    pub fn zero() -> (r: Vec3)
        ensures
            r == (Vec3 { x: 0, y: 0, z: 0 }),
    {
        Vec3 { x: 0, y: 0, z: 0 }
    }

    /// The vector (1, 1, 1).
    pub fn one() -> (r: Vec3)
        ensures
            r == (Vec3 { x: FX_ONE, y: FX_ONE, z: FX_ONE }),
    {
        Vec3 { x: FX_ONE, y: FX_ONE, z: FX_ONE }
    }
}

/// Four fixed-point components, used for matrix rows and plane equations.
#[derive(Clone, Copy, PartialEq, Eq, Structural, Debug)]
pub struct Vec4 {
    pub x: i64,
    pub y: i64,
    pub z: i64,
    pub w: i64,
}

/// Componentwise saturating sum.
pub open spec fn vec4_add_s(a: Vec4, b: Vec4) -> Vec4 {
    Vec4 {
        x: fx_add_s(a.x as int, b.x as int) as i64,
        y: fx_add_s(a.y as int, b.y as int) as i64,
        z: fx_add_s(a.z as int, b.z as int) as i64,
        w: fx_add_s(a.w as int, b.w as int) as i64,
    }
}

/// Componentwise saturating difference.
pub open spec fn vec4_sub_s(a: Vec4, b: Vec4) -> Vec4 {
    Vec4 {
        x: fx_sub_s(a.x as int, b.x as int) as i64,
        y: fx_sub_s(a.y as int, b.y as int) as i64,
        z: fx_sub_s(a.z as int, b.z as int) as i64,
        w: fx_sub_s(a.w as int, b.w as int) as i64,
    }
}

impl Vec4 {
    pub fn new(x: i64, y: i64, z: i64, w: i64) -> (r: Vec4)
        ensures
            r == (Vec4 { x, y, z, w }),
    {
        Vec4 { x, y, z, w }
    }

    /// Componentwise saturating sum.
    pub fn add_vec(&self, b: &Vec4) -> (r: Vec4)
        ensures
            r == vec4_add_s(*self, *b),
    {
        Vec4 {
            x: fx_add(self.x, b.x),
            y: fx_add(self.y, b.y),
            z: fx_add(self.z, b.z),
            w: fx_add(self.w, b.w),
        }
    }

    /// Componentwise saturating difference.
    pub fn sub_vec(&self, b: &Vec4) -> (r: Vec4)
        ensures
            r == vec4_sub_s(*self, *b),
    {
        Vec4 {
            x: fx_sub(self.x, b.x),
            y: fx_sub(self.y, b.y),
            z: fx_sub(self.z, b.z),
            w: fx_sub(self.w, b.w),
        }
    }
}

/// Row `i` of a matrix as a `Vec4`.
pub open spec fn mat_row_s(m: Mat4, i: int) -> Vec4 {
    if i == 0 {
        Vec4 { x: m.m00, y: m.m01, z: m.m02, w: m.m03 }
    } else if i == 1 {
        Vec4 { x: m.m10, y: m.m11, z: m.m12, w: m.m13 }
    } else if i == 2 {
        Vec4 { x: m.m20, y: m.m21, z: m.m22, w: m.m23 }
    } else {
        Vec4 { x: m.m30, y: m.m31, z: m.m32, w: m.m33 }
    }
}

/// A rotation, stored as quaternion components.
#[derive(Clone, Copy, PartialEq, Eq, Structural, Debug)]
pub struct Quat {
    pub w: i64,
    pub x: i64,
    pub y: i64,
    pub z: i64,
}

impl Quat {
    pub fn new(w: i64, x: i64, y: i64, z: i64) -> (r: Quat)
        ensures
            r == (Quat { w, x, y, z }),
    {
        Quat { w, x, y, z }
    }

    /// The identity rotation.
    pub fn identity() -> (r: Quat)
        ensures
            r == (Quat { w: FX_ONE, x: 0, y: 0, z: 0 }),
    {
        Quat { w: FX_ONE, x: 0, y: 0, z: 0 }
    }
}

/// A 4x4 fixed-point matrix, row-major fields.
#[derive(Clone, Copy, PartialEq, Eq, Structural, Debug)]
pub struct Mat4 {
    pub m00: i64,
    pub m01: i64,
    pub m02: i64,
    pub m03: i64,
    pub m10: i64,
    pub m11: i64,
    pub m12: i64,
    pub m13: i64,
    pub m20: i64,
    pub m21: i64,
    pub m22: i64,
    pub m23: i64,
    pub m30: i64,
    pub m31: i64,
    pub m32: i64,
    pub m33: i64,
}

/// Saturating dot product of a matrix row with a column of four scalars.
pub open spec fn row_dot_s(a0: int, b0: int, a1: int, b1: int, a2: int, b2: int, a3: int, b3: int) -> int {
    fx_add_s(
        fx_add_s(fx_add_s(fx_mul_s(a0, b0), fx_mul_s(a1, b1)), fx_mul_s(a2, b2)),
        fx_mul_s(a3, b3),
    )
}

fn row_dot(a0: i64, b0: i64, a1: i64, b1: i64, a2: i64, b2: i64, a3: i64, b3: i64) -> (r: i64)
    ensures
        r as int == row_dot_s(
            a0 as int,
            b0 as int,
            a1 as int,
            b1 as int,
            a2 as int,
            b2 as int,
            a3 as int,
            b3 as int,
        ),
{
    fx_add(fx_add(fx_add(fx_mul(a0, b0), fx_mul(a1, b1)), fx_mul(a2, b2)), fx_mul(a3, b3))
}

/// The identity matrix.
pub open spec fn mat_identity_s() -> Mat4 {
    Mat4 {
        m00: FX_ONE,
        m01: 0,
        m02: 0,
        m03: 0,
        m10: 0,
        m11: FX_ONE,
        m12: 0,
        m13: 0,
        m20: 0,
        m21: 0,
        m22: FX_ONE,
        m23: 0,
        m30: 0,
        m31: 0,
        m32: 0,
        m33: FX_ONE,
    }
}

/// Matrix product with saturating fixed-point entries.
#[verifier::opaque]
pub open spec fn mat_mul_s(a: Mat4, b: Mat4) -> Mat4 {
    Mat4 {
        m00: row_dot_s(
            a.m00 as int,
            b.m00 as int,
            a.m01 as int,
            b.m10 as int,
            a.m02 as int,
            b.m20 as int,
            a.m03 as int,
            b.m30 as int,
        ) as i64,
        m01: row_dot_s(
            a.m00 as int,
            b.m01 as int,
            a.m01 as int,
            b.m11 as int,
            a.m02 as int,
            b.m21 as int,
            a.m03 as int,
            b.m31 as int,
        ) as i64,
        m02: row_dot_s(
            a.m00 as int,
            b.m02 as int,
            a.m01 as int,
            b.m12 as int,
            a.m02 as int,
            b.m22 as int,
            a.m03 as int,
            b.m32 as int,
        ) as i64,
        m03: row_dot_s(
            a.m00 as int,
            b.m03 as int,
            a.m01 as int,
            b.m13 as int,
            a.m02 as int,
            b.m23 as int,
            a.m03 as int,
            b.m33 as int,
        ) as i64,
        m10: row_dot_s(
            a.m10 as int,
            b.m00 as int,
            a.m11 as int,
            b.m10 as int,
            a.m12 as int,
            b.m20 as int,
            a.m13 as int,
            b.m30 as int,
        ) as i64,
        m11: row_dot_s(
            a.m10 as int,
            b.m01 as int,
            a.m11 as int,
            b.m11 as int,
            a.m12 as int,
            b.m21 as int,
            a.m13 as int,
            b.m31 as int,
        ) as i64,
        m12: row_dot_s(
            a.m10 as int,
            b.m02 as int,
            a.m11 as int,
            b.m12 as int,
            a.m12 as int,
            b.m22 as int,
            a.m13 as int,
            b.m32 as int,
        ) as i64,
        m13: row_dot_s(
            a.m10 as int,
            b.m03 as int,
            a.m11 as int,
            b.m13 as int,
            a.m12 as int,
            b.m23 as int,
            a.m13 as int,
            b.m33 as int,
        ) as i64,
        m20: row_dot_s(
            a.m20 as int,
            b.m00 as int,
            a.m21 as int,
            b.m10 as int,
            a.m22 as int,
            b.m20 as int,
            a.m23 as int,
            b.m30 as int,
        ) as i64,
        m21: row_dot_s(
            a.m20 as int,
            b.m01 as int,
            a.m21 as int,
            b.m11 as int,
            a.m22 as int,
            b.m21 as int,
            a.m23 as int,
            b.m31 as int,
        ) as i64,
        m22: row_dot_s(
            a.m20 as int,
            b.m02 as int,
            a.m21 as int,
            b.m12 as int,
            a.m22 as int,
            b.m22 as int,
            a.m23 as int,
            b.m32 as int,
        ) as i64,
        m23: row_dot_s(
            a.m20 as int,
            b.m03 as int,
            a.m21 as int,
            b.m13 as int,
            a.m22 as int,
            b.m23 as int,
            a.m23 as int,
            b.m33 as int,
        ) as i64,
        m30: row_dot_s(
            a.m30 as int,
            b.m00 as int,
            a.m31 as int,
            b.m10 as int,
            a.m32 as int,
            b.m20 as int,
            a.m33 as int,
            b.m30 as int,
        ) as i64,
        m31: row_dot_s(
            a.m30 as int,
            b.m01 as int,
            a.m31 as int,
            b.m11 as int,
            a.m32 as int,
            b.m21 as int,
            a.m33 as int,
            b.m31 as int,
        ) as i64,
        m32: row_dot_s(
            a.m30 as int,
            b.m02 as int,
            a.m31 as int,
            b.m12 as int,
            a.m32 as int,
            b.m22 as int,
            a.m33 as int,
            b.m32 as int,
        ) as i64,
        m33: row_dot_s(
            a.m30 as int,
            b.m03 as int,
            a.m31 as int,
            b.m13 as int,
            a.m32 as int,
            b.m23 as int,
            a.m33 as int,
            b.m33 as int,
        ) as i64,
    }
}

/// A point sent through a matrix: row dot (x, y, z, 1).
pub open spec fn transform_point_s(m: Mat4, p: Vec3) -> Vec3 {
    Vec3 {
        x: row_dot_s(
            m.m00 as int,
            p.x as int,
            m.m01 as int,
            p.y as int,
            m.m02 as int,
            p.z as int,
            m.m03 as int,
            FX_ONE as int,
        ) as i64,
        y: row_dot_s(
            m.m10 as int,
            p.x as int,
            m.m11 as int,
            p.y as int,
            m.m12 as int,
            p.z as int,
            m.m13 as int,
            FX_ONE as int,
        ) as i64,
        z: row_dot_s(
            m.m20 as int,
            p.x as int,
            m.m21 as int,
            p.y as int,
            m.m22 as int,
            p.z as int,
            m.m23 as int,
            FX_ONE as int,
        ) as i64,
    }
}

/// Pure translation matrix.
pub open spec fn mat_translation_s(v: Vec3) -> Mat4 {
    Mat4 { m03: v.x, m13: v.y, m23: v.z, ..mat_identity_s() }
}

/// Non-uniform scale matrix.
pub open spec fn mat_scale_s(v: Vec3) -> Mat4 {
    Mat4 { m00: v.x, m11: v.y, m22: v.z, ..mat_identity_s() }
}

/// Doubled scalar.
pub open spec fn fx_two_s(a: int) -> int {
    fx_add_s(a, a)
}

/// Rotation matrix of a quaternion, in the standard unit-quaternion form.
pub open spec fn mat_rotation_s(q: Quat) -> Mat4 {
    let w = q.w as int;
    let x = q.x as int;
    let y = q.y as int;
    let z = q.z as int;
    Mat4 {
        m00: fx_sub_s(FX_ONE as int, fx_two_s(fx_add_s(fx_mul_s(y, y), fx_mul_s(z, z)))) as i64,
        m01: fx_two_s(fx_sub_s(fx_mul_s(x, y), fx_mul_s(w, z))) as i64,
        m02: fx_two_s(fx_add_s(fx_mul_s(x, z), fx_mul_s(w, y))) as i64,
        m10: fx_two_s(fx_add_s(fx_mul_s(x, y), fx_mul_s(w, z))) as i64,
        m11: fx_sub_s(FX_ONE as int, fx_two_s(fx_add_s(fx_mul_s(x, x), fx_mul_s(z, z)))) as i64,
        m12: fx_two_s(fx_sub_s(fx_mul_s(y, z), fx_mul_s(w, x))) as i64,
        m20: fx_two_s(fx_sub_s(fx_mul_s(x, z), fx_mul_s(w, y))) as i64,
        m21: fx_two_s(fx_add_s(fx_mul_s(y, z), fx_mul_s(w, x))) as i64,
        m22: fx_sub_s(FX_ONE as int, fx_two_s(fx_add_s(fx_mul_s(x, x), fx_mul_s(y, y)))) as i64,
        ..mat_identity_s()
    }
}

fn fx_two(a: i64) -> (r: i64)
    ensures
        r as int == fx_two_s(a as int),
{
    fx_add(a, a)
}

impl Mat4 {
    /// The identity matrix.
    pub fn identity() -> (r: Mat4)
        ensures
            r == mat_identity_s(),
    {
        Mat4 {
            m00: FX_ONE,
            m01: 0,
            m02: 0,
            m03: 0,
            m10: 0,
            m11: FX_ONE,
            m12: 0,
            m13: 0,
            m20: 0,
            m21: 0,
            m22: FX_ONE,
            m23: 0,
            m30: 0,
            m31: 0,
            m32: 0,
            m33: FX_ONE,
        }
    }

    /// Pure translation matrix.
    pub fn from_translation(v: Vec3) -> (r: Mat4)
        ensures
            r == mat_translation_s(v),
    {
        let mut m = Mat4::identity();
        m.m03 = v.x;
        m.m13 = v.y;
        m.m23 = v.z;
        m
    }

    /// Non-uniform scale matrix.
    pub fn from_nonuniform_scale(v: Vec3) -> (r: Mat4)
        ensures
            r == mat_scale_s(v),
    {
        let mut m = Mat4::identity();
        m.m00 = v.x;
        m.m11 = v.y;
        m.m22 = v.z;
        m
    }

    /// Rotation matrix of a quaternion.
    pub fn from_quat(q: Quat) -> (r: Mat4)
        ensures
            r == mat_rotation_s(q),
    {
        let yy = fx_mul(q.y, q.y);
        let zz = fx_mul(q.z, q.z);
        let xx = fx_mul(q.x, q.x);
        let xy = fx_mul(q.x, q.y);
        let xz = fx_mul(q.x, q.z);
        let yz = fx_mul(q.y, q.z);
        let wx = fx_mul(q.w, q.x);
        let wy = fx_mul(q.w, q.y);
        let wz = fx_mul(q.w, q.z);
        let mut m = Mat4::identity();
        m.m00 = fx_sub(FX_ONE, fx_two(fx_add(yy, zz)));
        m.m01 = fx_two(fx_sub(xy, wz));
        m.m02 = fx_two(fx_add(xz, wy));
        m.m10 = fx_two(fx_add(xy, wz));
        m.m11 = fx_sub(FX_ONE, fx_two(fx_add(xx, zz)));
        m.m12 = fx_two(fx_sub(yz, wx));
        m.m20 = fx_two(fx_sub(xz, wy));
        m.m21 = fx_two(fx_add(yz, wx));
        m.m22 = fx_sub(FX_ONE, fx_two(fx_add(xx, yy)));
        m
    }

    /// Matrix product.
    pub fn mul_mat(&self, b: &Mat4) -> (r: Mat4)
        ensures
            r == mat_mul_s(*self, *b),
    {
        proof {
            reveal(mat_mul_s);
        }
        Mat4 {
            m00: row_dot(self.m00, b.m00, self.m01, b.m10, self.m02, b.m20, self.m03, b.m30),
            m01: row_dot(self.m00, b.m01, self.m01, b.m11, self.m02, b.m21, self.m03, b.m31),
            m02: row_dot(self.m00, b.m02, self.m01, b.m12, self.m02, b.m22, self.m03, b.m32),
            m03: row_dot(self.m00, b.m03, self.m01, b.m13, self.m02, b.m23, self.m03, b.m33),
            m10: row_dot(self.m10, b.m00, self.m11, b.m10, self.m12, b.m20, self.m13, b.m30),
            m11: row_dot(self.m10, b.m01, self.m11, b.m11, self.m12, b.m21, self.m13, b.m31),
            m12: row_dot(self.m10, b.m02, self.m11, b.m12, self.m12, b.m22, self.m13, b.m32),
            m13: row_dot(self.m10, b.m03, self.m11, b.m13, self.m12, b.m23, self.m13, b.m33),
            m20: row_dot(self.m20, b.m00, self.m21, b.m10, self.m22, b.m20, self.m23, b.m30),
            m21: row_dot(self.m20, b.m01, self.m21, b.m11, self.m22, b.m21, self.m23, b.m31),
            m22: row_dot(self.m20, b.m02, self.m21, b.m12, self.m22, b.m22, self.m23, b.m32),
            m23: row_dot(self.m20, b.m03, self.m21, b.m13, self.m22, b.m23, self.m23, b.m33),
            m30: row_dot(self.m30, b.m00, self.m31, b.m10, self.m32, b.m20, self.m33, b.m30),
            m31: row_dot(self.m30, b.m01, self.m31, b.m11, self.m32, b.m21, self.m33, b.m31),
            m32: row_dot(self.m30, b.m02, self.m31, b.m12, self.m32, b.m22, self.m33, b.m32),
            m33: row_dot(self.m30, b.m03, self.m31, b.m13, self.m32, b.m23, self.m33, b.m33),
        }
    }

    /// Row `i` of the matrix.
    pub fn row(&self, i: usize) -> (r: Vec4)
        requires
            i < 4,
        ensures
            r == mat_row_s(*self, i as int),
    {
        if i == 0 {
            Vec4 { x: self.m00, y: self.m01, z: self.m02, w: self.m03 }
        } else if i == 1 {
            Vec4 { x: self.m10, y: self.m11, z: self.m12, w: self.m13 }
        } else if i == 2 {
            Vec4 { x: self.m20, y: self.m21, z: self.m22, w: self.m23 }
        } else {
            Vec4 { x: self.m30, y: self.m31, z: self.m32, w: self.m33 }
        }
    }

    /// Send a point through the matrix.
    pub fn transform_point(&self, p: Vec3) -> (r: Vec3)
        ensures
            r == transform_point_s(*self, p),
    {
        Vec3 {
            x: row_dot(self.m00, p.x, self.m01, p.y, self.m02, p.z, self.m03, FX_ONE),
            y: row_dot(self.m10, p.x, self.m11, p.y, self.m12, p.z, self.m13, FX_ONE),
            z: row_dot(self.m20, p.x, self.m21, p.y, self.m22, p.z, self.m23, FX_ONE),
        }
    }
}

} // verus!
