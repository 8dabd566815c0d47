//! 4x4 transformation matrix over fixed-point entries.

use vstd::prelude::*;
use crate::vector::{BaseVector, COORD_LIMIT};

verus! {

/// Largest entry magnitude the matrix operations accept.
pub const MATRIX_LIMIT: i64 = 1_000_000_000;

/// A 4x4 transformation matrix stored in row-major order, with plain
/// integer entries. Translation, scaling and composition are exact;
/// transforming a point multiplies its coordinates by the entries as they
/// stand, so the identity has ones on the diagonal.
#[derive(Debug, Clone, Copy)]
pub struct Matrix4 {
    /// Matrix entries in row-major order.
    pub data: [[i64; 4]; 4],
}

impl Matrix4 {
    /// Every entry lies within `bound` in magnitude.
    pub open spec fn bounded(self, bound: int) -> bool {
        forall|i: int, j: int|
            0 <= i < 4 && 0 <= j < 4 ==> -bound <= #[trigger] self.data[i][j] <= bound
    }

    /// What transforming the point `p` yields.
    pub open spec fn spec_transform_point(self, p: BaseVector) -> BaseVector {
        BaseVector {
            x: (self.data[0][0] * p.x + self.data[0][1] * p.y + self.data[0][2] * p.z
                + self.data[0][3]) as i64,
            y: (self.data[1][0] * p.x + self.data[1][1] * p.y + self.data[1][2] * p.z
                + self.data[1][3]) as i64,
            z: (self.data[2][0] * p.x + self.data[2][1] * p.y + self.data[2][2] * p.z
                + self.data[2][3]) as i64,
        }
    }

    /// What transforming the direction `d` yields: as a point, but without
    /// the translation column.
    pub open spec fn spec_transform_direction(self, d: BaseVector) -> BaseVector {
        BaseVector {
            x: (self.data[0][0] * d.x + self.data[0][1] * d.y + self.data[0][2] * d.z) as i64,
            y: (self.data[1][0] * d.x + self.data[1][1] * d.y + self.data[1][2] * d.z) as i64,
            z: (self.data[2][0] * d.x + self.data[2][1] * d.y + self.data[2][2] * d.z) as i64,
        }
    }

    /// Entry `(i, j)` of the matrix product of `self` and `other`.
    pub open spec fn spec_product_entry(self, other: Self, i: int, j: int) -> int {
        self.data[i][0] * other.data[0][j] + self.data[i][1] * other.data[1][j]
            + self.data[i][2] * other.data[2][j] + self.data[i][3] * other.data[3][j]
    }

    /// Creates a new zero matrix.
    pub fn new() -> (r: Self)
        ensures
            forall|i: int, j: int| 0 <= i < 4 && 0 <= j < 4 ==> #[trigger] r.data[i][j] == 0,
    {
        Matrix4 { data: [[0i64; 4]; 4] }
    }

    /// Creates an identity matrix.
    pub fn identity() -> (r: Self)
        ensures
            forall|i: int, j: int|
                0 <= i < 4 && 0 <= j < 4
                    ==> #[trigger] r.data[i][j] == if i == j { 1int } else { 0int },
    {
        Matrix4 {
            data: [
                [1i64, 0, 0, 0],
                [0i64, 1, 0, 0],
                [0i64, 0, 1, 0],
                [0i64, 0, 0, 1],
            ],
        }
    }

    /// Creates a translation matrix.
    pub fn translation(x: i64, y: i64, z: i64) -> (r: Self)
        ensures
            r.data[0][3] == x && r.data[1][3] == y && r.data[2][3] == z,
            forall|i: int, j: int|
                0 <= i < 4 && 0 <= j < 3
                    ==> #[trigger] r.data[i][j] == if i == j { 1int } else { 0int },
            r.data[3][3] == 1,
    {
        Matrix4 {
            data: [
                [1i64, 0, 0, x],
                [0i64, 1, 0, y],
                [0i64, 0, 1, z],
                [0i64, 0, 0, 1],
            ],
        }
    }

    /// Creates a uniform scaling matrix.
    pub fn scale(s: i64) -> (r: Self)
        ensures
            r.data[0][0] == s && r.data[1][1] == s && r.data[2][2] == s,
            r.data[3][3] == 1,
            forall|i: int, j: int|
                0 <= i < 4 && 0 <= j < 4 && i != j ==> #[trigger] r.data[i][j] == 0,
    {
        Matrix4 {
            data: [
                [s, 0, 0, 0],
                [0i64, s, 0, 0],
                [0i64, 0, s, 0],
                [0i64, 0, 0, 1],
            ],
        }
    }

    /// Creates a scaling matrix with one factor per axis.
    pub fn scale_xyz(sx: i64, sy: i64, sz: i64) -> (r: Self)
        ensures
            r.data[0][0] == sx && r.data[1][1] == sy && r.data[2][2] == sz,
            r.data[3][3] == 1,
            forall|i: int, j: int|
                0 <= i < 4 && 0 <= j < 4 && i != j ==> #[trigger] r.data[i][j] == 0,
    {
        Matrix4 {
            data: [
                [sx, 0, 0, 0],
                [0i64, sy, 0, 0],
                [0i64, 0, sz, 0],
                [0i64, 0, 0, 1],
            ],
        }
    }

    /// Transforms a point by this matrix.
    pub fn transform_point(&self, p: &BaseVector) -> (r: BaseVector)
        requires
            self.bounded(MATRIX_LIMIT as int),
            p.bounded(COORD_LIMIT as int),
        ensures
            r == self.spec_transform_point(*p),
    {
        proof {
            lemma_row_bound(*self, *p, 0);
            lemma_row_bound(*self, *p, 1);
            lemma_row_bound(*self, *p, 2);
        }
        BaseVector {
            x: self.data[0][0] * p.x + self.data[0][1] * p.y + self.data[0][2] * p.z
                + self.data[0][3],
            y: self.data[1][0] * p.x + self.data[1][1] * p.y + self.data[1][2] * p.z
                + self.data[1][3],
            z: self.data[2][0] * p.x + self.data[2][1] * p.y + self.data[2][2] * p.z
                + self.data[2][3],
        }
    }

    /// Transforms a direction by this matrix, ignoring translation.
    pub fn transform_direction(&self, d: &BaseVector) -> (r: BaseVector)
        requires
            self.bounded(MATRIX_LIMIT as int),
            d.bounded(COORD_LIMIT as int),
        ensures
            r == self.spec_transform_direction(*d),
    {
        proof {
            lemma_row_bound(*self, *d, 0);
            lemma_row_bound(*self, *d, 1);
            lemma_row_bound(*self, *d, 2);
        }
        BaseVector {
            x: self.data[0][0] * d.x + self.data[0][1] * d.y + self.data[0][2] * d.z,
            y: self.data[1][0] * d.x + self.data[1][1] * d.y + self.data[1][2] * d.z,
            z: self.data[2][0] * d.x + self.data[2][1] * d.y + self.data[2][2] * d.z,
        }
    }

    /// Multiplies two matrices.
    pub fn multiply(&self, other: &Self) -> (r: Self)
        requires
            self.bounded(MATRIX_LIMIT as int),
            other.bounded(MATRIX_LIMIT as int),
        ensures
            forall|i: int, j: int|
                0 <= i < 4 && 0 <= j < 4
                    ==> #[trigger] r.data[i][j] == self.spec_product_entry(*other, i, j),
    {
        let mut data = [[0i64; 4]; 4];
        let mut i: usize = 0;
        while i < 4
            invariant
                self.bounded(MATRIX_LIMIT as int),
                other.bounded(MATRIX_LIMIT as int),
                0 <= i <= 4,
                forall|a: int, b: int|
                    0 <= a < i && 0 <= b < 4
                        ==> #[trigger] data[a][b] == self.spec_product_entry(*other, a, b),
            decreases 4 - i,
        {
            let mut j: usize = 0;
            while j < 4
                invariant
                    self.bounded(MATRIX_LIMIT as int),
                    other.bounded(MATRIX_LIMIT as int),
                    0 <= i < 4,
                    0 <= j <= 4,
                    forall|a: int, b: int|
                        0 <= a < i && 0 <= b < 4
                            ==> #[trigger] data[a][b] == self.spec_product_entry(*other, a, b),
                    forall|b: int|
                        0 <= b < j
                            ==> #[trigger] data[i as int][b]
                                == self.spec_product_entry(*other, i as int, b),
                decreases 4 - j,
            {
                proof {
                    lemma_entry_bound(*self, *other, i as int, j as int);
                }
                let v = self.data[i][0] * other.data[0][j] + self.data[i][1] * other.data[1][j]
                    + self.data[i][2] * other.data[2][j] + self.data[i][3] * other.data[3][j];
                data[i][j] = v;
                j = j + 1;
            }
            i = i + 1;
        }
        Matrix4 { data }
    }
}

proof fn lemma_row_bound(m: Matrix4, p: BaseVector, i: int)
    requires
        m.bounded(MATRIX_LIMIT as int),
        p.bounded(COORD_LIMIT as int),
        0 <= i < 4,
    ensures
        -500_000_000_000_000_000 <= m.data[i][0] * p.x <= 500_000_000_000_000_000,
        -500_000_000_000_000_000 <= m.data[i][1] * p.y <= 500_000_000_000_000_000,
        -500_000_000_000_000_000 <= m.data[i][2] * p.z <= 500_000_000_000_000_000,
{
    crate::scalar::lemma_mul_bounds(m.data[i][0] as int, p.x as int, MATRIX_LIMIT as int, COORD_LIMIT as int);
    crate::scalar::lemma_mul_bounds(m.data[i][1] as int, p.y as int, MATRIX_LIMIT as int, COORD_LIMIT as int);
    crate::scalar::lemma_mul_bounds(m.data[i][2] as int, p.z as int, MATRIX_LIMIT as int, COORD_LIMIT as int);
}

proof fn lemma_entry_bound(m: Matrix4, o: Matrix4, i: int, j: int)
    requires
        m.bounded(MATRIX_LIMIT as int),
        o.bounded(MATRIX_LIMIT as int),
        0 <= i < 4,
        0 <= j < 4,
    ensures
        -1_000_000_000_000_000_000 <= m.data[i][0] * o.data[0][j] <= 1_000_000_000_000_000_000,
        -1_000_000_000_000_000_000 <= m.data[i][1] * o.data[1][j] <= 1_000_000_000_000_000_000,
        -1_000_000_000_000_000_000 <= m.data[i][2] * o.data[2][j] <= 1_000_000_000_000_000_000,
        -1_000_000_000_000_000_000 <= m.data[i][3] * o.data[3][j] <= 1_000_000_000_000_000_000,
{
    crate::scalar::lemma_mul_bounds(m.data[i][0] as int, o.data[0][j] as int, MATRIX_LIMIT as int,
        MATRIX_LIMIT as int);
    crate::scalar::lemma_mul_bounds(m.data[i][1] as int, o.data[1][j] as int, MATRIX_LIMIT as int,
        MATRIX_LIMIT as int);
    crate::scalar::lemma_mul_bounds(m.data[i][2] as int, o.data[2][j] as int, MATRIX_LIMIT as int,
        MATRIX_LIMIT as int);
    crate::scalar::lemma_mul_bounds(m.data[i][3] as int, o.data[3][j] as int, MATRIX_LIMIT as int,
        MATRIX_LIMIT as int);
}

impl Default for Matrix4 {
    /// Creates an identity matrix.
    fn default() -> (r: Self)
        ensures
            forall|i: int, j: int|
                0 <= i < 4 && 0 <= j < 4
                    ==> #[trigger] r.data[i][j] == if i == j { 1int } else { 0int },
    {
        Matrix4::identity()
    }
}

} // verus!
