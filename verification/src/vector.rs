//! The base vector type for 3D coordinates.
//!
//! Coordinates are fixed-point: plain `i64` values in caller-chosen units.
//! Directions returned by [`BaseVector::normalized`] are scaled so that a
//! unit vector has Euclidean length close to [`crate::scalar::NORMAL_SCALE`].

use vstd::prelude::*;
use crate::scalar::{
    is_sqrt, spec_isqrt, isqrt_u64, isqrt_u128, div_floor_i64, div_floor_i128, NORMAL_SCALE,
};

verus! {

/// Largest coordinate magnitude the pairwise vector operations accept;
/// keeps every product and three-term sum within `i64`.
pub const COORD_LIMIT: i64 = 500_000_000;

/// Largest coordinate magnitude that `length`, `normalized` and `normalize`
/// accept; wide enough for the cross product of two in-limit vectors, with
/// the squared length still within 128 bits.
pub const NORM_LIMIT: i64 = 2_000_000_000_000_000_000;

/// A 3D vector with fixed-point `i64` coordinates.
#[derive(Debug, Clone, Copy, PartialEq, Eq, Structural)]
pub struct BaseVector {
    pub x: i64,
    pub y: i64,
    pub z: i64,
}

impl BaseVector {
    /// Every coordinate lies within `bound` in magnitude.
    pub open spec fn bounded(self, bound: int) -> bool {
        &&& -bound <= self.x <= bound
        &&& -bound <= self.y <= bound
        &&& -bound <= self.z <= bound
    }

    pub open spec fn spec_dot(self, other: Self) -> int {
        self.x * other.x + self.y * other.y + self.z * other.z
    }

    pub open spec fn spec_length2(self) -> int {
        self.spec_dot(self)
    }

    pub open spec fn spec_add(self, other: Self) -> Self {
        BaseVector {
            x: (self.x + other.x) as i64,
            y: (self.y + other.y) as i64,
            z: (self.z + other.z) as i64,
        }
    }

    pub open spec fn spec_sub(self, other: Self) -> Self {
        BaseVector {
            x: (self.x - other.x) as i64,
            y: (self.y - other.y) as i64,
            z: (self.z - other.z) as i64,
        }
    }

    pub open spec fn spec_cross(self, other: Self) -> Self {
        BaseVector {
            x: (self.y * other.z - self.z * other.y) as i64,
            y: (self.z * other.x - self.x * other.z) as i64,
            z: (self.x * other.y - self.y * other.x) as i64,
        }
    }

    /// The vector rescaled to length close to `NORMAL_SCALE`, or unchanged
    /// when it is the zero vector.
    pub open spec fn spec_normalized(self) -> Self {
        let len = spec_isqrt(self.spec_length2());
        if len == 0 {
            self
        } else {
            BaseVector {
                x: (self.x * NORMAL_SCALE / len) as i64,
                y: (self.y * NORMAL_SCALE / len) as i64,
                z: (self.z * NORMAL_SCALE / len) as i64,
            }
        }
    }

    /// Creates a new vector with the given coordinates.
    pub fn new(x: i64, y: i64, z: i64) -> (r: Self)
        ensures
            r == (BaseVector { x, y, z }),
    {
        BaseVector { x, y, z }
    }

    /// Returns the squared Euclidean length of this vector.
    pub fn length2(&self) -> (r: i64)
        requires
            self.bounded(COORD_LIMIT as int),
        ensures
            r == self.spec_length2(),
            0 <= r <= 3 * (COORD_LIMIT as int) * (COORD_LIMIT as int),
    {
        proof {
            lemma_square_bound(self.x as int, COORD_LIMIT as int);
            lemma_square_bound(self.y as int, COORD_LIMIT as int);
            lemma_square_bound(self.z as int, COORD_LIMIT as int);
        }
        self.x * self.x + self.y * self.y + self.z * self.z
    }

    /// Calculates the dot product with another vector.
    pub fn dot(&self, other: &Self) -> (r: i64)
        requires
            self.bounded(COORD_LIMIT as int),
            other.bounded(COORD_LIMIT as int),
        ensures
            r == self.spec_dot(*other),
    {
        proof {
            lemma_product_bound(self.x as int, other.x as int, COORD_LIMIT as int);
            lemma_product_bound(self.y as int, other.y as int, COORD_LIMIT as int);
            lemma_product_bound(self.z as int, other.z as int, COORD_LIMIT as int);
        }
        self.x * other.x + self.y * other.y + self.z * other.z
    }

    /// Calculates the squared Euclidean distance to another vector.
    pub fn distance2(&self, other: &Self) -> (r: i64)
        requires
            self.bounded(COORD_LIMIT as int),
            other.bounded(COORD_LIMIT as int),
        ensures
            r == self.spec_sub(*other).spec_length2(),
            0 <= r,
    {
        let dx = self.x - other.x;
        let dy = self.y - other.y;
        let dz = self.z - other.z;
        proof {
            lemma_square_bound(dx as int, 2 * COORD_LIMIT as int);
            lemma_square_bound(dy as int, 2 * COORD_LIMIT as int);
            lemma_square_bound(dz as int, 2 * COORD_LIMIT as int);
        }
        dx * dx + dy * dy + dz * dz
    }

    /// Returns the Euclidean length, rounded down to an integer.
    pub fn length(&self) -> (r: i64)
        requires
            self.bounded(NORM_LIMIT as int),
        ensures
            r == spec_isqrt(self.spec_length2()),
            is_sqrt(self.spec_length2(), r as int),
            0 <= r <= 3_464_101_615_137_754_588,
    {
        proof {
            lemma_square_bound(self.x as int, NORM_LIMIT as int);
            lemma_square_bound(self.y as int, NORM_LIMIT as int);
            lemma_square_bound(self.z as int, NORM_LIMIT as int);
        }
        let xx: i128 = (self.x as i128) * (self.x as i128);
        let yy: i128 = (self.y as i128) * (self.y as i128);
        let zz: i128 = (self.z as i128) * (self.z as i128);
        let l2: u128 = (xx + yy + zz) as u128;
        let r = isqrt_u128(l2);
        proof {
            let b: int = 3_464_101_615_137_754_588;
            assert(r as int <= b) by {
                if r as int > b {
                    assert((b + 1) * (b + 1) > 3 * (NORM_LIMIT as int) * (NORM_LIMIT as int));
                    assert(r as int * r as int >= (b + 1) * (b + 1)) by (nonlinear_arith)
                        requires r as int >= b + 1 && b + 1 > 0;
                }
            }
        }
        r as i64
    }

    /// Calculates the Euclidean distance to another vector, rounded down.
    pub fn distance(&self, other: &Self) -> (r: i64)
        requires
            self.bounded(COORD_LIMIT as int),
            other.bounded(COORD_LIMIT as int),
        ensures
            r == spec_isqrt(self.spec_sub(*other).spec_length2()),
            is_sqrt(self.spec_sub(*other).spec_length2(), r as int),
    {
        let d2 = self.distance2(other);
        isqrt_u64(d2 as u64) as i64
    }

    /// Returns this vector rescaled to length close to `NORMAL_SCALE`;
    /// the zero vector is returned unchanged. The result's coordinates lie
    /// within `NORMAL_SCALE` in magnitude.
    pub fn normalized(&self) -> (r: Self)
        requires
            self.bounded(NORM_LIMIT as int),
        ensures
            r == self.spec_normalized(),
            self.spec_length2() == 0 ==> r == *self,
            self.spec_length2() != 0 ==> r.bounded(NORMAL_SCALE as int),
    {
        let len = self.length();
        if len > 0 {
            proof {
                assert(self.x * self.x >= 0 && self.y * self.y >= 0 && self.z * self.z >= 0)
                    by (nonlinear_arith);
                assert((len as int) * (len as int) >= 1) by (nonlinear_arith)
                    requires len >= 1;
                lemma_component_le_root(self.x as int, self.spec_length2(), len as int);
                lemma_component_le_root(self.y as int, self.spec_length2(), len as int);
                lemma_component_le_root(self.z as int, self.spec_length2(), len as int);
                lemma_scaled_div_bounded(self.x as int, len as int);
                lemma_scaled_div_bounded(self.y as int, len as int);
                lemma_scaled_div_bounded(self.z as int, len as int);
            }
            let x = div_floor_i128(
                (self.x as i128) * (NORMAL_SCALE as i128), len as i128) as i64;
            let y = div_floor_i128(
                (self.y as i128) * (NORMAL_SCALE as i128), len as i128) as i64;
            let z = div_floor_i128(
                (self.z as i128) * (NORMAL_SCALE as i128), len as i128) as i64;
            BaseVector { x, y, z }
        } else {
            proof {
                lemma_zero_isqrt(self.spec_length2(), len as int);
            }
            *self
        }
    }

    /// Rescales this vector in place to length close to `NORMAL_SCALE`;
    /// the zero vector is left unchanged.
    pub fn normalize(&mut self)
        requires
            old(self).bounded(NORM_LIMIT as int),
        ensures
            *final(self) == old(self).spec_normalized(),
    {
        let n = self.normalized();
        *self = n;
    }

    /// Calculates the cross product with another vector. Inputs as large as
    /// the difference of two in-limit vectors are accepted, and the result
    /// stays within `NORM_LIMIT`, so it can be normalized.
    pub fn cross(&self, other: &Self) -> (r: Self)
        requires
            self.bounded(2 * COORD_LIMIT as int),
            other.bounded(2 * COORD_LIMIT as int),
        ensures
            r == self.spec_cross(*other),
            r.bounded(NORM_LIMIT as int),
    {
        proof {
            lemma_product_bound(self.y as int, other.z as int, 2 * COORD_LIMIT as int);
            lemma_product_bound(self.z as int, other.y as int, 2 * COORD_LIMIT as int);
            lemma_product_bound(self.z as int, other.x as int, 2 * COORD_LIMIT as int);
            lemma_product_bound(self.x as int, other.z as int, 2 * COORD_LIMIT as int);
            lemma_product_bound(self.x as int, other.y as int, 2 * COORD_LIMIT as int);
            lemma_product_bound(self.y as int, other.x as int, 2 * COORD_LIMIT as int);
            assert((2 * COORD_LIMIT as int) * (2 * COORD_LIMIT as int)
                == 1_000_000_000_000_000_000) by (nonlinear_arith);
        }
        BaseVector {
            x: self.y * other.z - self.z * other.y,
            y: self.z * other.x - self.x * other.z,
            z: self.x * other.y - self.y * other.x,
        }
    }

    /// Componentwise sum of a sequence prefix, as a mathematical function.
    pub open spec fn spec_sum(s: Seq<BaseVector>) -> (int, int, int)
        decreases s.len(),
    {
        if s.len() == 0 {
            (0, 0, 0)
        } else {
            let rest = Self::spec_sum(s.drop_last());
            let last = s.last();
            (rest.0 + last.x, rest.1 + last.y, rest.2 + last.z)
        }
    }

    /// Returns the componentwise floor of the mean of all points in the
    /// given collection; the zero vector when the collection is empty.
    pub fn centroid(points: &Vec<BaseVector>) -> (r: Self)
        requires
            forall|i: int| 0 <= i < points@.len()
                ==> (#[trigger] points@[i]).bounded(COORD_LIMIT as int),
            points@.len() <= 1_000_000,
        ensures
            points@.len() == 0 ==> r == (BaseVector { x: 0, y: 0, z: 0 }),
            points@.len() > 0 ==> {
                let total = Self::spec_sum(points@);
                let n = points@.len() as int;
                r == (BaseVector {
                    x: (total.0 / n) as i64,
                    y: (total.1 / n) as i64,
                    z: (total.2 / n) as i64,
                })
            },
    {
        let n = points.len();
        if n == 0 {
            return BaseVector { x: 0, y: 0, z: 0 };
        }
        let mut sx: i64 = 0;
        let mut sy: i64 = 0;
        let mut sz: i64 = 0;
        let mut i: usize = 0;
        while i < n
            invariant
                n == points@.len(),
                0 <= i <= n,
                n <= 1_000_000,
                forall|j: int| 0 <= j < points@.len()
                    ==> (#[trigger] points@[j]).bounded(COORD_LIMIT as int),
                (sx as int, sy as int, sz as int)
                    == Self::spec_sum(points@.subrange(0, i as int)),
                -((i as int) * (COORD_LIMIT as int)) <= sx <= (i as int) * (COORD_LIMIT as int),
                -((i as int) * (COORD_LIMIT as int)) <= sy <= (i as int) * (COORD_LIMIT as int),
                -((i as int) * (COORD_LIMIT as int)) <= sz <= (i as int) * (COORD_LIMIT as int),
                -500_000_000_000_000 <= sx <= 500_000_000_000_000,
                -500_000_000_000_000 <= sy <= 500_000_000_000_000,
                -500_000_000_000_000 <= sz <= 500_000_000_000_000,
            decreases n - i,
        {
            let p = points[i];
            proof {
                assert(points@.subrange(0, i + 1 as int).drop_last()
                    =~= points@.subrange(0, i as int));
                lemma_sum_step(i as int, sx as int, p.x as int);
                lemma_sum_step(i as int, sy as int, p.y as int);
                lemma_sum_step(i as int, sz as int, p.z as int);
            }
            sx = sx + p.x;
            sy = sy + p.y;
            sz = sz + p.z;
            i = i + 1;
        }
        proof {
            assert(points@.subrange(0, n as int) =~= points@);
        }
        BaseVector {
            x: div_floor_i64(sx, n as i64),
            y: div_floor_i64(sy, n as i64),
            z: div_floor_i64(sz, n as i64),
        }
    }
}

proof fn lemma_square_bound(a: int, b: int)
    requires
        -b <= a <= b,
        0 <= b,
    ensures
        0 <= a * a <= b * b,
{
    assert(0 <= a * a <= b * b) by (nonlinear_arith)
        requires -b <= a <= b && 0 <= b;
}

proof fn lemma_product_bound(a: int, b: int, c: int)
    requires
        -c <= a <= c,
        -c <= b <= c,
        0 <= c,
    ensures
        -(c * c) <= a * b <= c * c,
{
    assert(-(c * c) <= a * b <= c * c) by (nonlinear_arith)
        requires -c <= a <= c && -c <= b <= c && 0 <= c;
}

proof fn lemma_component_le_root(x: int, n: int, len: int)
    requires
        x * x <= n,
        is_sqrt(n, len),
    ensures
        -len <= x <= len,
{
    if x > len {
        assert(x * x >= (len + 1) * (len + 1)) by (nonlinear_arith)
            requires x >= len + 1 && len + 1 > 0;
    }
    if x < -len {
        assert(x * x >= (len + 1) * (len + 1)) by (nonlinear_arith)
            requires -x >= len + 1 && len + 1 > 0;
    }
}

proof fn lemma_scaled_div_bounded(x: int, len: int)
    requires
        0 < len,
        -len <= x <= len,
    ensures
        -(NORMAL_SCALE as int) <= x * (NORMAL_SCALE as int) / len <= NORMAL_SCALE as int,
{
    let s = NORMAL_SCALE as int;
    assert(x * s <= len * s) by (nonlinear_arith)
        requires x <= len && s >= 0;
    assert(len * (-s) <= x * s) by (nonlinear_arith)
        requires -len <= x && s >= 0;
    vstd::arithmetic::div_mod::lemma_div_is_ordered(x * s, len * s, len);
    vstd::arithmetic::div_mod::lemma_div_is_ordered(len * (-s), x * s, len);
    vstd::arithmetic::div_mod::lemma_div_multiples_vanish(s, len);
    vstd::arithmetic::div_mod::lemma_div_multiples_vanish(-s, len);
}

proof fn lemma_zero_isqrt(n: int, r: int)
    requires
        is_sqrt(n, r),
        r == 0,
        0 <= n,
    ensures
        n == 0,
{
}

proof fn lemma_sum_step(i: int, s: int, v: int)
    requires
        0 <= i < 1_000_000,
        -(i * (COORD_LIMIT as int)) <= s <= i * (COORD_LIMIT as int),
        -COORD_LIMIT <= v <= COORD_LIMIT,
    ensures
        -((i + 1) * (COORD_LIMIT as int)) <= s + v <= (i + 1) * (COORD_LIMIT as int),
        -500_000_000_000_000 <= s + v <= 500_000_000_000_000,
{
    let c = COORD_LIMIT as int;
    assert((i + 1) * c == i * c + c) by (nonlinear_arith);
    assert((i + 1) * c <= 1_000_000 * c) by (nonlinear_arith)
        requires i + 1 <= 1_000_000 && c >= 0;
}

impl core::ops::Add for BaseVector {
    type Output = BaseVector;

    /// Componentwise vector addition.
    fn add(self, other: Self) -> (r: Self) {
        BaseVector { x: self.x + other.x, y: self.y + other.y, z: self.z + other.z }
    }
}

impl vstd::std_specs::ops::AddSpecImpl for BaseVector {
    open spec fn obeys_add_spec() -> bool {
        true
    }

    open spec fn add_req(self, other: Self) -> bool {
        &&& i64::MIN <= self.x + other.x <= i64::MAX
        &&& i64::MIN <= self.y + other.y <= i64::MAX
        &&& i64::MIN <= self.z + other.z <= i64::MAX
    }

    open spec fn add_spec(self, other: Self) -> Self {
        self.spec_add(other)
    }
}

impl core::ops::Sub for BaseVector {
    type Output = BaseVector;

    /// Componentwise vector subtraction.
    fn sub(self, other: Self) -> (r: Self) {
        BaseVector { x: self.x - other.x, y: self.y - other.y, z: self.z - other.z }
    }
}

impl vstd::std_specs::ops::SubSpecImpl for BaseVector {
    open spec fn obeys_sub_spec() -> bool {
        true
    }

    open spec fn sub_req(self, other: Self) -> bool {
        &&& i64::MIN <= self.x - other.x <= i64::MAX
        &&& i64::MIN <= self.y - other.y <= i64::MAX
        &&& i64::MIN <= self.z - other.z <= i64::MAX
    }

    open spec fn sub_spec(self, other: Self) -> Self {
        self.spec_sub(other)
    }
}

impl core::ops::Neg for BaseVector {
    type Output = BaseVector;

    /// Componentwise negation.
    fn neg(self) -> (r: Self) {
        BaseVector { x: -self.x, y: -self.y, z: -self.z }
    }
}

impl vstd::std_specs::ops::NegSpecImpl for BaseVector {
    open spec fn obeys_neg_spec() -> bool {
        true
    }

    open spec fn neg_req(self) -> bool {
        &&& self.x != i64::MIN
        &&& self.y != i64::MIN
        &&& self.z != i64::MIN
    }

    open spec fn neg_spec(self) -> Self {
        BaseVector { x: (-self.x) as i64, y: (-self.y) as i64, z: (-self.z) as i64 }
    }
}

impl core::ops::Mul<i64> for BaseVector {
    type Output = BaseVector;

    /// Componentwise scaling by an integer.
    fn mul(self, scale: i64) -> (r: Self) {
        BaseVector { x: self.x * scale, y: self.y * scale, z: self.z * scale }
    }
}

impl vstd::std_specs::ops::MulSpecImpl<i64> for BaseVector {
    open spec fn obeys_mul_spec() -> bool {
        true
    }

    open spec fn mul_req(self, scale: i64) -> bool {
        &&& i64::MIN <= self.x * scale <= i64::MAX
        &&& i64::MIN <= self.y * scale <= i64::MAX
        &&& i64::MIN <= self.z * scale <= i64::MAX
    }

    open spec fn mul_spec(self, scale: i64) -> Self {
        BaseVector {
            x: (self.x * scale) as i64,
            y: (self.y * scale) as i64,
            z: (self.z * scale) as i64,
        }
    }
}

impl Default for BaseVector {
    /// Creates a null vector.
    fn default() -> (r: Self)
        ensures
            r == (BaseVector { x: 0, y: 0, z: 0 }),
    {
        BaseVector { x: 0, y: 0, z: 0 }
    }
}

} // verus!
