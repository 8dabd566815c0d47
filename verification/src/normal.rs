//! A direction vector rescaled to a fixed unit length.
//!
//! A `Normal` holds a direction whose Euclidean length is close to
//! [`crate::scalar::NORMAL_SCALE`]; its constructor rescales any input.

use vstd::prelude::*;
use crate::scalar::{is_sqrt, isqrt_u64, NORMAL_SCALE};
use crate::vector::{BaseVector, COORD_LIMIT, NORM_LIMIT};

verus! {

/// A direction vector rescaled so that its length is close to `NORMAL_SCALE`.
#[derive(Debug, Clone, Copy, PartialEq, Eq, Structural)]
pub struct Normal {
    /// X component, in `NORMAL_SCALE` units.
    pub x: i64,
    /// Y component, in `NORMAL_SCALE` units.
    pub y: i64,
    /// Z component, in `NORMAL_SCALE` units.
    pub z: i64,
}

impl Normal {
    /// Every component lies within `bound` in magnitude.
    pub open spec fn bounded(self, bound: int) -> bool {
        &&& -bound <= self.x <= bound
        &&& -bound <= self.y <= bound
        &&& -bound <= self.z <= bound
    }

    /// What `new` returns: the rescaled input, or the positive z axis for
    /// the zero vector.
    pub open spec fn spec_new(x: i64, y: i64, z: i64) -> Normal {
        if x == 0 && y == 0 && z == 0 {
            Normal { x: 0, y: 0, z: NORMAL_SCALE }
        } else {
            let v = (BaseVector { x, y, z }).spec_normalized();
            Normal { x: v.x, y: v.y, z: v.z }
        }
    }

    /// This normal's components as a plain vector, for specifications.
    pub open spec fn spec_vector(self) -> BaseVector {
        BaseVector { x: self.x, y: self.y, z: self.z }
    }

    pub open spec fn spec_dot(self, other: Self) -> int {
        self.x * other.x + self.y * other.y + self.z * other.z
    }

    /// Creates a normal from the given components, rescaled to length close
    /// to `NORMAL_SCALE`; the zero vector becomes the positive z axis.
    pub fn new(x: i64, y: i64, z: i64) -> (r: Self)
        requires
            (BaseVector { x, y, z }).bounded(NORM_LIMIT as int),
        ensures
            r == Self::spec_new(x, y, z),
            r.bounded(NORMAL_SCALE as int),
    {
        if x == 0 && y == 0 && z == 0 {
            Normal { x: 0, y: 0, z: NORMAL_SCALE }
        } else {
            let v = BaseVector { x, y, z };
            let n = v.normalized();
            proof {
                assert(v.spec_length2() > 0) by {
                    if v.x != 0 {
                        assert(v.x * v.x >= 1 && v.y * v.y >= 0 && v.z * v.z >= 0)
                            by (nonlinear_arith) requires v.x != 0;
                    } else if v.y != 0 {
                        assert(v.x * v.x >= 0 && v.y * v.y >= 1 && v.z * v.z >= 0)
                            by (nonlinear_arith) requires v.y != 0;
                    } else {
                        assert(v.x * v.x >= 0 && v.y * v.y >= 0 && v.z * v.z >= 1)
                            by (nonlinear_arith) requires v.z != 0;
                    }
                }
            }
            Normal { x: n.x, y: n.y, z: n.z }
        }
    }

    /// Returns the length of this normal, close to `NORMAL_SCALE`.
    pub fn length(&self) -> (r: i64)
        requires
            self.bounded(COORD_LIMIT as int),
        ensures
            is_sqrt(self.x * self.x + self.y * self.y + self.z * self.z, r as int),
    {
        proof {
            lemma_bounded_squares(self.x as int, self.y as int, self.z as int,
                COORD_LIMIT as int);
        }
        isqrt_u64((self.x * self.x + self.y * self.y + self.z * self.z) as u64) as i64
    }

    /// Calculates the dot product with another normal.
    pub fn dot(&self, other: &Self) -> (r: i64)
        requires
            self.bounded(COORD_LIMIT as int),
            other.bounded(COORD_LIMIT as int),
        ensures
            r == self.spec_dot(*other),
    {
        let a = self.to_vector();
        let b = other.to_vector();
        a.dot(&b)
    }

    /// Calculates the dot product with a plain vector.
    pub fn dot_vec(&self, other: &BaseVector) -> (r: i64)
        requires
            self.bounded(COORD_LIMIT as int),
            other.bounded(COORD_LIMIT as int),
        ensures
            r == self.x * other.x + self.y * other.y + self.z * other.z,
    {
        let a = self.to_vector();
        a.dot(other)
    }

    /// Converts this normal to a plain vector with the same components.
    pub fn to_vector(&self) -> (r: BaseVector)
        ensures
            r == (BaseVector { x: self.x, y: self.y, z: self.z }),
    {
        BaseVector { x: self.x, y: self.y, z: self.z }
    }

    /// Calculates the cross product with another normal.
    pub fn cross(&self, other: &Self) -> (r: BaseVector)
        requires
            self.bounded(COORD_LIMIT as int),
            other.bounded(COORD_LIMIT as int),
        ensures
            r == self.spec_vector().spec_cross(other.spec_vector()),
    {
        let a = self.to_vector();
        let b = other.to_vector();
        a.cross(&b)
    }
}

proof fn lemma_bounded_squares(x: int, y: int, z: int, b: int)
    requires
        0 <= b,
        -b <= x <= b,
        -b <= y <= b,
        -b <= z <= b,
    ensures
        0 <= x * x <= b * b,
        0 <= y * y <= b * b,
        0 <= z * z <= b * b,
        0 <= x * x + y * y + z * z <= 3 * (b * b),
{
    assert(0 <= x * x <= b * b && 0 <= y * y <= b * b && 0 <= z * z <= b * b)
        by (nonlinear_arith)
        requires -b <= x <= b && -b <= y <= b && -b <= z <= b && 0 <= b;
}

impl core::ops::Neg for Normal {
    type Output = Normal;

    /// Componentwise negation.
    fn neg(self) -> (r: Self) {
        Normal { x: -self.x, y: -self.y, z: -self.z }
    }
}

impl vstd::std_specs::ops::NegSpecImpl for Normal {
    open spec fn obeys_neg_spec() -> bool {
        true
    }

    open spec fn neg_req(self) -> bool {
        &&& self.x != i64::MIN
        &&& self.y != i64::MIN
        &&& self.z != i64::MIN
    }

    open spec fn neg_spec(self) -> Self {
        Normal { x: (-self.x) as i64, y: (-self.y) as i64, z: (-self.z) as i64 }
    }
}

} // verus!
