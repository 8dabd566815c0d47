//! A plane in 3D space, defined by a point and a normal vector.

use vstd::prelude::*;
use crate::scalar::{div_floor_i64, NORMAL_SCALE};
use crate::vector::{BaseVector, COORD_LIMIT};
use crate::normal::Normal;

verus! {

/// A plane defined by a reference point and a normal direction: the points
/// `p` with `n · (p - p0) == 0`.
#[derive(Debug, Clone, Copy)]
pub struct Plane {
    /// A point on the plane.
    pub point: BaseVector,
    /// The normal direction of the plane, in `NORMAL_SCALE` units.
    pub normal: Normal,
}

impl Plane {
    /// The dot product of the plane normal with the offset from the plane's
    /// reference point to `p`: `NORMAL_SCALE` times the signed distance.
    pub open spec fn spec_offset_dot(self, p: BaseVector) -> int {
        let dx = p.x - self.point.x;
        let dy = p.y - self.point.y;
        let dz = p.z - self.point.z;
        self.normal.x * dx + self.normal.y * dy + self.normal.z * dz
    }

    /// Creates a new plane from a point and a normal.
    pub fn new(point: BaseVector, normal: Normal) -> (r: Self)
        ensures
            r == (Plane { point, normal }),
    {
        Plane { point, normal }
    }

    /// Creates a plane through three points. The normal is the rescaled
    /// cross product of the two edges leaving the first point.
    pub fn from_points(p1: BaseVector, p2: BaseVector, p3: BaseVector) -> (r: Self)
        requires
            p1.bounded(COORD_LIMIT as int),
            p2.bounded(COORD_LIMIT as int),
            p3.bounded(COORD_LIMIT as int),
        ensures
            r.point == p1,
            ({
                let v1 = p2.spec_sub(p1);
                let v2 = p3.spec_sub(p1);
                let c = v1.spec_cross(v2);
                r.normal == Normal::spec_new(c.x, c.y, c.z)
            }),
    {
        let v1 = BaseVector { x: p2.x - p1.x, y: p2.y - p1.y, z: p2.z - p1.z };
        let v2 = BaseVector { x: p3.x - p1.x, y: p3.y - p1.y, z: p3.z - p1.z };
        let c = v1.cross(&v2);
        let normal = Normal::new(c.x, c.y, c.z);
        Plane { point: p1, normal }
    }

    /// Computes the signed distance from a point to the plane, rounded down:
    /// positive on the side the normal points to.
    pub fn signed_distance(&self, point: &BaseVector) -> (r: i64)
        requires
            self.point.bounded(COORD_LIMIT as int),
            self.normal.bounded(NORMAL_SCALE as int),
            point.bounded(COORD_LIMIT as int),
        ensures
            r == self.spec_offset_dot(*point) / (NORMAL_SCALE as int),
    {
        let d = self.offset_dot(point);
        div_floor_i64(d, NORMAL_SCALE)
    }

    /// Projects a point onto the plane, with each coordinate rounded down.
    pub fn project(&self, point: &BaseVector) -> (r: BaseVector)
        requires
            self.point.bounded(COORD_LIMIT as int),
            self.normal.bounded(NORMAL_SCALE as int),
            point.bounded(COORD_LIMIT as int),
        ensures
            ({
                let d = self.spec_offset_dot(*point);
                let s2 = (NORMAL_SCALE as int) * (NORMAL_SCALE as int);
                r == (BaseVector {
                    x: (point.x - self.normal.x * d / s2) as i64,
                    y: (point.y - self.normal.y * d / s2) as i64,
                    z: (point.z - self.normal.z * d / s2) as i64,
                })
            }),
    {
        let d = self.offset_dot(point);
        proof {
            lemma_project_bounds(self.normal.x as int, d as int);
            lemma_project_bounds(self.normal.y as int, d as int);
            lemma_project_bounds(self.normal.z as int, d as int);
        }
        let s2: i64 = NORMAL_SCALE * NORMAL_SCALE;
        BaseVector {
            x: point.x - div_floor_i64(self.normal.x * d, s2),
            y: point.y - div_floor_i64(self.normal.y * d, s2),
            z: point.z - div_floor_i64(self.normal.z * d, s2),
        }
    }

    /// The dot product of the plane normal with the offset to `point`.
    fn offset_dot(&self, point: &BaseVector) -> (r: i64)
        requires
            self.point.bounded(COORD_LIMIT as int),
            self.normal.bounded(NORMAL_SCALE as int),
            point.bounded(COORD_LIMIT as int),
        ensures
            r == self.spec_offset_dot(*point),
            -3_072_000_000_000 <= r <= 3_072_000_000_000,
    {
        let dx = point.x - self.point.x;
        let dy = point.y - self.point.y;
        let dz = point.z - self.point.z;
        proof {
            lemma_offset_products(self.normal.x as int, dx as int);
            lemma_offset_products(self.normal.y as int, dy as int);
            lemma_offset_products(self.normal.z as int, dz as int);
        }
        self.normal.x * dx + self.normal.y * dy + self.normal.z * dz
    }
}

proof fn lemma_offset_products(n: int, d: int)
    requires
        -(NORMAL_SCALE as int) <= n <= NORMAL_SCALE as int,
        -(2 * COORD_LIMIT as int) <= d <= 2 * COORD_LIMIT as int,
    ensures
        -1_024_000_000_000 <= n * d <= 1_024_000_000_000,
{
    crate::scalar::lemma_mul_bounds(n, d, NORMAL_SCALE as int, 2 * COORD_LIMIT as int);
}

proof fn lemma_project_bounds(n: int, d: int)
    requires
        -1024 <= n <= 1024,
        -3_072_000_000_000 <= d <= 3_072_000_000_000,
    ensures
        -0x4000_0000_0000_0000 < n * d / ((NORMAL_SCALE as int) * (NORMAL_SCALE as int)),
        n * d / ((NORMAL_SCALE as int) * (NORMAL_SCALE as int)) < 0x4000_0000_0000_0000,
        -0x4000_0000_0000_0000 < n * d < 0x4000_0000_0000_0000,
{
    crate::scalar::lemma_mul_bounds(n, d, 1024, 3_072_000_000_000);
    assert(1024 * 3_072_000_000_000 == 3_145_728_000_000_000) by (nonlinear_arith);
    let s2 = (NORMAL_SCALE as int) * (NORMAL_SCALE as int);
    vstd::arithmetic::div_mod::lemma_fundamental_div_mod(n * d, s2);
    vstd::arithmetic::div_mod::lemma_mod_division_less_than_divisor(n * d, s2);
    let q = n * d / s2;
    assert(s2 * q == n * d - (n * d) % s2);
    assert(-0x4000_0000_0000_0000 < q < 0x4000_0000_0000_0000) by (nonlinear_arith)
        requires s2 == 1048576 && s2 * q == n * d - (n * d) % s2
            && 0 <= (n * d) % s2 < s2
            && -0x4000_0000_0000_0000 < n * d < 0x4000_0000_0000_0000;
}

} // verus!
