//! The 4x4 matrices of the usual transforms in homogeneous coordinates.
//!
//! A matrix is written by rows and acts on column vectors, so a transform
//! `T * R * S` scales first and translates last. The builders here put
//! numbers in their places and change signs; they compute nothing else, so
//! a rotation takes the cosine and the sine of its angle, and the
//! perspective projection takes its four coefficients.
use crate::binary64::{negate, negated, MINUS_ONE, ONE, ZERO};
use crate::point::Vector3;
use vstd::prelude::*;

verus! {

/// Four numbers: a row of a matrix, or a point in homogeneous coordinates.
#[derive(Clone, Copy, Debug, PartialEq, Eq, Structural)]
pub struct Vector4 {
    pub x: u64,
    pub y: u64,
    pub z: u64,
    pub w: u64,
}

/// A 4x4 matrix, by rows. Every entry is the bit pattern of a double.
#[derive(Clone, Copy, Debug, PartialEq, Eq, Structural)]
pub struct Matrix4 {
    pub row0: Vector4,
    pub row1: Vector4,
    pub row2: Vector4,
    pub row3: Vector4,
}

/// The row `(x, y, z, w)`.
pub open spec fn row(x: u64, y: u64, z: u64, w: u64) -> Vector4 {
    Vector4 { x, y, z, w }
}

impl Matrix4 {
    /// The matrix that leaves every point where it is.
    pub open spec fn identity() -> Matrix4 {
        Matrix4 {
            row0: row(ONE, ZERO, ZERO, ZERO),
            row1: row(ZERO, ONE, ZERO, ZERO),
            row2: row(ZERO, ZERO, ONE, ZERO),
            row3: row(ZERO, ZERO, ZERO, ONE),
        }
    }

    /// The matrix with rows and columns exchanged.
    pub open spec fn transposed(self) -> Matrix4 {
        Matrix4 {
            row0: row(self.row0.x, self.row1.x, self.row2.x, self.row3.x),
            row1: row(self.row0.y, self.row1.y, self.row2.y, self.row3.y),
            row2: row(self.row0.z, self.row1.z, self.row2.z, self.row3.z),
            row3: row(self.row0.w, self.row1.w, self.row2.w, self.row3.w),
        }
    }

    /// The matrix that moves every point by `v`.
    pub open spec fn of_translation(v: Vector3) -> Matrix4 {
        Matrix4 {
            row0: row(ONE, ZERO, ZERO, v.x),
            row1: row(ZERO, ONE, ZERO, v.y),
            row2: row(ZERO, ZERO, ONE, v.z),
            row3: row(ZERO, ZERO, ZERO, ONE),
        }
    }

    /// The matrix that scales by `s` along every axis.
    pub open spec fn of_scale(s: u64) -> Matrix4 {
        Matrix4 {
            row0: row(s, ZERO, ZERO, ZERO),
            row1: row(ZERO, s, ZERO, ZERO),
            row2: row(ZERO, ZERO, s, ZERO),
            row3: row(ZERO, ZERO, ZERO, ONE),
        }
    }

    /// The rotation about the x axis by the angle with cosine `c` and sine
    /// `s`.
    pub open spec fn of_x_rotation(c: u64, s: u64) -> Matrix4 {
        Matrix4 {
            row0: row(ONE, ZERO, ZERO, ZERO),
            row1: row(ZERO, c, negated(s), ZERO),
            row2: row(ZERO, s, c, ZERO),
            row3: row(ZERO, ZERO, ZERO, ONE),
        }
    }

    /// The rotation about the y axis by the angle with cosine `c` and sine
    /// `s`.
    pub open spec fn of_y_rotation(c: u64, s: u64) -> Matrix4 {
        Matrix4 {
            row0: row(c, ZERO, s, ZERO),
            row1: row(ZERO, ONE, ZERO, ZERO),
            row2: row(negated(s), ZERO, c, ZERO),
            row3: row(ZERO, ZERO, ZERO, ONE),
        }
    }

    /// The rotation about the z axis by the angle with cosine `c` and sine
    /// `s`.
    pub open spec fn of_z_rotation(c: u64, s: u64) -> Matrix4 {
        Matrix4 {
            row0: row(c, negated(s), ZERO, ZERO),
            row1: row(s, c, ZERO, ZERO),
            row2: row(ZERO, ZERO, ONE, ZERO),
            row3: row(ZERO, ZERO, ZERO, ONE),
        }
    }

    /// The perspective projection with the given coefficients: `x_scale`
    /// and `y_scale` on the diagonal, `z_scale` and `z_offset` in the third
    /// row, and `-1` below them, so that the fourth coordinate of an image
    /// is the depth of the point in front of the camera.
    pub open spec fn of_projection(x_scale: u64, y_scale: u64, z_scale: u64, z_offset: u64)
        -> Matrix4 {
        Matrix4 {
            row0: row(x_scale, ZERO, ZERO, ZERO),
            row1: row(ZERO, y_scale, ZERO, ZERO),
            row2: row(ZERO, ZERO, z_scale, z_offset),
            row3: row(ZERO, ZERO, MINUS_ONE, ZERO),
        }
    }

    /// The matrix with rows and columns exchanged.
    pub fn transpose(&self) -> (m: Matrix4)
        ensures
            m == self.transposed(),
    {
        Matrix4 {
            row0: Vector4 { x: self.row0.x, y: self.row1.x, z: self.row2.x, w: self.row3.x },
            row1: Vector4 { x: self.row0.y, y: self.row1.y, z: self.row2.y, w: self.row3.y },
            row2: Vector4 { x: self.row0.z, y: self.row1.z, z: self.row2.z, w: self.row3.z },
            row3: Vector4 { x: self.row0.w, y: self.row1.w, z: self.row2.w, w: self.row3.w },
        }
    }
}

/// The matrix that moves every point by `v`: the identity with `v` in the
/// last column.
pub fn translation(v: Vector3) -> (m: Matrix4)
    ensures
        m == Matrix4::of_translation(v),
{
    Matrix4 {
        row0: Vector4 { x: ONE, y: ZERO, z: ZERO, w: v.x },
        row1: Vector4 { x: ZERO, y: ONE, z: ZERO, w: v.y },
        row2: Vector4 { x: ZERO, y: ZERO, z: ONE, w: v.z },
        row3: Vector4 { x: ZERO, y: ZERO, z: ZERO, w: ONE },
    }
}

/// The matrix that scales by `s` along every axis.
pub fn scaling(s: u64) -> (m: Matrix4)
    ensures
        m == Matrix4::of_scale(s),
{
    Matrix4 {
        row0: Vector4 { x: s, y: ZERO, z: ZERO, w: ZERO },
        row1: Vector4 { x: ZERO, y: s, z: ZERO, w: ZERO },
        row2: Vector4 { x: ZERO, y: ZERO, z: s, w: ZERO },
        row3: Vector4 { x: ZERO, y: ZERO, z: ZERO, w: ONE },
    }
}

/// The rotation about the x axis by an angle, given the cosine and the sine
/// of the angle.
pub fn x_rotation(cos: u64, sin: u64) -> (m: Matrix4)
    ensures
        m == Matrix4::of_x_rotation(cos, sin),
{
    Matrix4 {
        row0: Vector4 { x: ONE, y: ZERO, z: ZERO, w: ZERO },
        row1: Vector4 { x: ZERO, y: cos, z: negate(sin), w: ZERO },
        row2: Vector4 { x: ZERO, y: sin, z: cos, w: ZERO },
        row3: Vector4 { x: ZERO, y: ZERO, z: ZERO, w: ONE },
    }
}

/// The rotation about the y axis by an angle, given the cosine and the sine
/// of the angle.
pub fn y_rotation(cos: u64, sin: u64) -> (m: Matrix4)
    ensures
        m == Matrix4::of_y_rotation(cos, sin),
{
    Matrix4 {
        row0: Vector4 { x: cos, y: ZERO, z: sin, w: ZERO },
        row1: Vector4 { x: ZERO, y: ONE, z: ZERO, w: ZERO },
        row2: Vector4 { x: negate(sin), y: ZERO, z: cos, w: ZERO },
        row3: Vector4 { x: ZERO, y: ZERO, z: ZERO, w: ONE },
    }
}

/// The rotation about the z axis by an angle, given the cosine and the sine
/// of the angle.
pub fn z_rotation(cos: u64, sin: u64) -> (m: Matrix4)
    ensures
        m == Matrix4::of_z_rotation(cos, sin),
{
    Matrix4 {
        row0: Vector4 { x: cos, y: negate(sin), z: ZERO, w: ZERO },
        row1: Vector4 { x: sin, y: cos, z: ZERO, w: ZERO },
        row2: Vector4 { x: ZERO, y: ZERO, z: ONE, w: ZERO },
        row3: Vector4 { x: ZERO, y: ZERO, z: ZERO, w: ONE },
    }
}

/// The perspective projection, given its coefficients. For a field of view
/// `fov`, an aspect ratio `ar` and clip distances `near < far` they are
/// `x_scale = 1 / (tan(fov / 2) * ar)`, `y_scale = 1 / tan(fov / 2)`,
/// `z_scale = (far + near) / (near - far)` and
/// `z_offset = 2 * far * near / (near - far)`.
pub fn projection(x_scale: u64, y_scale: u64, z_scale: u64, z_offset: u64) -> (m: Matrix4)
    ensures
        m == Matrix4::of_projection(x_scale, y_scale, z_scale, z_offset),
{
    Matrix4 {
        row0: Vector4 { x: x_scale, y: ZERO, z: ZERO, w: ZERO },
        row1: Vector4 { x: ZERO, y: y_scale, z: ZERO, w: ZERO },
        row2: Vector4 { x: ZERO, y: ZERO, z: z_scale, w: z_offset },
        row3: Vector4 { x: ZERO, y: ZERO, z: MINUS_ONE, w: ZERO },
    }
}

/// Scaling by one is the identity matrix.
pub proof fn lemma_unit_scaling_is_identity()
    ensures
        Matrix4::of_scale(ONE) == Matrix4::identity(),
{
}

/// Changing the sign of a number twice gives the number back.
pub proof fn lemma_negated_twice(b: u64)
    ensures
        negated(negated(b)) == b,
{
    assert((b ^ 0x8000_0000_0000_0000) ^ 0x8000_0000_0000_0000 == b) by (bit_vector);
}

/// The rotation by the opposite angle, which has the same cosine and the
/// opposite sine, is the transposed matrix.
pub proof fn lemma_opposite_rotation_is_transpose(cos: u64, sin: u64)
    ensures
        Matrix4::of_x_rotation(cos, negated(sin)) == Matrix4::of_x_rotation(cos, sin).transposed(),
        Matrix4::of_y_rotation(cos, negated(sin)) == Matrix4::of_y_rotation(cos, sin).transposed(),
        Matrix4::of_z_rotation(cos, negated(sin)) == Matrix4::of_z_rotation(cos, sin).transposed(),
{
    lemma_negated_twice(sin);
}

} // verus!
