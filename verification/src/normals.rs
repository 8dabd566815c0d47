//! Surface-normal estimation by principal component analysis of local
//! neighborhoods.
//!
//! For every point, the `k + 1` nearest neighbors (the extra one absorbs
//! the point's own self-match) are fit with a tangent plane: two rounds of
//! power iteration find the covariance matrix's two dominant eigenvectors,
//! and their cross product, rescaled to `NORMAL_SCALE`, is the normal.

use vstd::prelude::*;
use crate::scalar::{div_floor_i128, NORMAL_SCALE};
use crate::vector::BaseVector;
use crate::point_buffer::PointBuffer;
use crate::search_tree::{SearchTree, knn_prefix};
use crate::hash_grid::GRID_COORD_LIMIT;
use crate::reconstruction::ReconstructionError;

verus! {

/// Largest neighborhood the estimator accepts.
pub const MAX_NEIGHBORHOOD: usize = 1_000_000;

/// Componentwise floor mean of a non-empty point sequence.
pub open spec fn spec_centroid(s: Seq<BaseVector>) -> BaseVector {
    let total = BaseVector::spec_sum(s);
    let n = s.len() as int;
    BaseVector { x: (total.0 / n) as i64, y: (total.1 / n) as i64, z: (total.2 / n) as i64 }
}

/// The six distinct entries of the symmetric covariance matrix of the
/// offsets of the first `upto` points from `c`: in order `xx`, `xy`,
/// `xz`, `yy`, `yz`, `zz`.
pub open spec fn spec_cov(s: Seq<BaseVector>, c: BaseVector, upto: int) -> (
    int,
    int,
    int,
    int,
    int,
    int,
)
    decreases upto,
{
    if upto <= 0 {
        (0, 0, 0, 0, 0, 0)
    } else {
        let prev = spec_cov(s, c, upto - 1);
        let dx = s[upto - 1].x - c.x;
        let dy = s[upto - 1].y - c.y;
        let dz = s[upto - 1].z - c.z;
        (
            prev.0 + dx * dx,
            prev.1 + dx * dy,
            prev.2 + dx * dz,
            prev.3 + dy * dy,
            prev.4 + dy * dz,
            prev.5 + dz * dz,
        )
    }
}

/// The symmetric matrix with entries `m` applied to the vector `v`.
pub open spec fn spec_mat_vec(m: (int, int, int, int, int, int), v: BaseVector) -> (
    int,
    int,
    int,
) {
    (
        m.0 * v.x + m.1 * v.y + m.2 * v.z,
        m.1 * v.x + m.3 * v.y + m.4 * v.z,
        m.2 * v.x + m.4 * v.y + m.5 * v.z,
    )
}

/// Halves all three components until each lies within `SHRINK_BOUND`;
/// the direction is kept to within rounding.
pub open spec fn spec_shrink(w: (int, int, int)) -> (int, int, int)
    decreases abs3(w),
{
    if -1_000_000_000_000_000 <= w.0 <= 1_000_000_000_000_000
        && -1_000_000_000_000_000 <= w.1 <= 1_000_000_000_000_000
        && -1_000_000_000_000_000 <= w.2 <= 1_000_000_000_000_000 {
        w
    } else {
        spec_shrink((w.0 / 2, w.1 / 2, w.2 / 2))
    }
}

/// Sum of component magnitudes, the termination measure of the halving.
pub open spec fn abs3(w: (int, int, int)) -> nat {
    ((if w.0 >= 0 {
        w.0
    } else {
        -w.0
    }) + (if w.1 >= 0 {
        w.1
    } else {
        -w.1
    }) + (if w.2 >= 0 {
        w.2
    } else {
        -w.2
    })) as nat
}

/// One power-iteration step: apply the matrix, shrink into range, and
/// rescale to `NORMAL_SCALE`; a vanished product keeps the old iterate.
pub open spec fn spec_power_step(m: (int, int, int, int, int, int), v: BaseVector)
    -> BaseVector {
    let w = spec_mat_vec(m, v);
    let s = spec_shrink(w);
    if s == (0int, 0int, 0int) {
        v
    } else {
        (BaseVector { x: s.0 as i64, y: s.1 as i64, z: s.2 as i64 }).spec_normalized()
    }
}

/// `n` power-iteration steps from `v`.
pub open spec fn spec_power_iter(m: (int, int, int, int, int, int), v: BaseVector, n: nat)
    -> BaseVector
    decreases n,
{
    if n == 0 {
        v
    } else {
        spec_power_step(m, spec_power_iter(m, v, (n - 1) as nat))
    }
}

/// The deflated covariance matrix: the dominant eigencomponent scaled out.
pub open spec fn spec_deflate(m: (int, int, int, int, int, int), v: BaseVector) -> (
    int,
    int,
    int,
    int,
    int,
    int,
) {
    let num = v.x * spec_mat_vec(m, v).0 + v.y * spec_mat_vec(m, v).1 + v.z * spec_mat_vec(
        m, v).2;
    let s4 = (NORMAL_SCALE as int) * (NORMAL_SCALE as int) * (NORMAL_SCALE as int)
        * (NORMAL_SCALE as int);
    (
        m.0 - num * v.x * v.x / s4,
        m.1 - num * v.x * v.y / s4,
        m.2 - num * v.x * v.z / s4,
        m.3 - num * v.y * v.y / s4,
        m.4 - num * v.y * v.z / s4,
        m.5 - num * v.z * v.z / s4,
    )
}

/// The normal direction the two dominant eigenvectors of `m` span: their
/// cross product rescaled, or the positive z axis when it vanishes.
pub open spec fn spec_smallest_eigenvector(m: (int, int, int, int, int, int)) -> BaseVector {
    let seed1 = BaseVector { x: NORMAL_SCALE, y: 0, z: 0 };
    let v1 = spec_power_iter(m, seed1, 20);
    let m2 = spec_deflate(m, v1);
    let seed2 = if (if v1.x >= 0 {
        v1.x as int
    } else {
        -v1.x as int
    }) * 10 < 9 * (NORMAL_SCALE as int) {
        BaseVector { x: NORMAL_SCALE, y: 0, z: 0 }
    } else {
        BaseVector { x: 0, y: NORMAL_SCALE, z: 0 }
    };
    let v2 = spec_power_iter(m2, seed2, 20);
    let c = v1.spec_cross(v2);
    if c.spec_length2() == 0 {
        BaseVector { x: 0, y: 0, z: NORMAL_SCALE }
    } else {
        c.spec_normalized()
    }
}

/// The estimated normal of a neighborhood: the positive z axis when it is
/// empty, else the principal-component normal of the covariance of the
/// offsets from the centroid.
pub open spec fn spec_estimate_normal_pca(s: Seq<BaseVector>) -> BaseVector {
    if s.len() == 0 {
        BaseVector { x: 0, y: 0, z: NORMAL_SCALE }
    } else {
        let c = spec_centroid(s);
        let m = spec_cov(s, c, s.len() as int);
        spec_smallest_eigenvector(m)
    }
}

/// The `k + 1` nearest neighbors of point `i`, as points.
pub open spec fn spec_neighborhood(pts: Seq<BaseVector>, i: int, k: int) -> Seq<BaseVector> {
    let order = knn_prefix(pts, pts[i], (k + 1) as nat);
    Seq::new(order.len(), |a: int| pts[order[a]])
}

/// The normal the estimator computes for point `i`.
pub open spec fn spec_estimated_normal(pts: Seq<BaseVector>, i: int, k: int) -> BaseVector {
    spec_estimate_normal_pca(spec_neighborhood(pts, i, k))
}

/// Estimates surface normals for all points of a buffer: for each point
/// independently, a plane fit by principal component analysis over its
/// `k + 1` nearest neighbors. Fails exactly when the buffer holds fewer
/// than `k` points.
pub fn estimate_normals(points: &PointBuffer, k: usize) -> (r: Result<
    Vec<BaseVector>,
    ReconstructionError,
>)
    requires
        points.wf(),
        points.points_bounded(GRID_COORD_LIMIT as int),
        points.spec_num_points() <= MAX_NEIGHBORHOOD,
        k < MAX_NEIGHBORHOOD,
    ensures
        points.spec_num_points() < k ==> r == Err::<Vec<BaseVector>, ReconstructionError>(
            ReconstructionError::NotEnoughPoints(points.spec_num_points() as usize)),
        points.spec_num_points() >= k ==> (r matches Ok(v) && v@.len()
            == points.spec_num_points() && forall|i: int|
            0 <= i < v@.len() ==> #[trigger] v@[i] == spec_estimated_normal(
                points.spec_points_seq(), i, k as int) && forall|i: int|
            0 <= i < v@.len() ==> (#[trigger] v@[i]).bounded(NORMAL_SCALE as int)),
{
    let n = points.num_points();
    if n < k {
        return Err(ReconstructionError::NotEnoughPoints(n));
    }
    let tree = SearchTree::new(points);
    let ghost pts = points.spec_points_seq();
    let mut out: Vec<BaseVector> = Vec::new();
    let mut i: usize = 0;
    while i < n
        invariant
            points.wf(),
            points.points_bounded(GRID_COORD_LIMIT as int),
            pts == points.spec_points_seq(),
            tree.wf(),
            tree.points@ == pts,
            n == pts.len(),
            n <= MAX_NEIGHBORHOOD,
            k < MAX_NEIGHBORHOOD,
            i <= n,
            out@.len() == i,
            forall|j: int|
                0 <= j < i ==> #[trigger] out@[j] == spec_estimated_normal(pts, j, k as int),
            forall|j: int| 0 <= j < i ==> (#[trigger] out@[j]).bounded(NORMAL_SCALE as int),
        decreases n - i,
    {
        let p = points.get_point(i).unwrap();
        proof {
            assert(pts[i as int] == points.spec_point(i as int));
            assert(pts[i as int].bounded(GRID_COORD_LIMIT as int));
            assert(pts[i as int].bounded(crate::vector::COORD_LIMIT as int));
        }
        let neighbors = tree.knn(&p, k + 1);
        proof {
            crate::search_tree::lemma_knn_prefix_len(pts, p, (k + 1) as nat);
            assert(neighbors@ =~= spec_neighborhood(pts, i as int, k as int)) by {
                assert forall|a: int| 0 <= a < neighbors@.len()
                    implies neighbors@[a] == spec_neighborhood(pts, i as int, k as int)[a] by {
                    assert(neighbors@[a] == pts[knn_prefix(pts, p, (k + 1) as nat)[a]]);
                }
            }
            assert forall|a: int| 0 <= a < neighbors@.len()
                implies (#[trigger] neighbors@[a]).bounded(GRID_COORD_LIMIT as int) by {
                let idx = knn_prefix(pts, p, (k + 1) as nat)[a];
                assert(neighbors@[a] == pts[idx]);
                assert(pts[idx] == points.spec_point(idx));
            }
        }
        let nrm = estimate_normal_pca(&neighbors);
        out.push(nrm);
        i = i + 1;
    }
    Ok(out)
}

/// Estimates a normal from a neighborhood of points by principal
/// component analysis.
pub fn estimate_normal_pca(points: &Vec<BaseVector>) -> (r: BaseVector)
    requires
        forall|a: int|
            0 <= a < points@.len() ==> (#[trigger] points@[a]).bounded(
                GRID_COORD_LIMIT as int),
        points@.len() <= MAX_NEIGHBORHOOD,
    ensures
        r == spec_estimate_normal_pca(points@),
        r.bounded(NORMAL_SCALE as int),
{
    if points.len() == 0 {
        return BaseVector { x: 0, y: 0, z: NORMAL_SCALE };
    }
    proof {
        assert forall|t: int| 0 <= t < points@.len()
            implies (#[trigger] points@[t]).bounded(crate::vector::COORD_LIMIT as int) by {
            assert(points@[t].bounded(GRID_COORD_LIMIT as int));
        }
    }
    let c = BaseVector::centroid(points);
    proof {
        lemma_centroid_bounded(points@);
    }
    let n = points.len();
    let ghost s = points@;
    let mut xx: i128 = 0;
    let mut xy: i128 = 0;
    let mut xz: i128 = 0;
    let mut yy: i128 = 0;
    let mut yz: i128 = 0;
    let mut zz: i128 = 0;
    let mut a: usize = 0;
    while a < n
        invariant
            s == points@,
            n == s.len(),
            n <= MAX_NEIGHBORHOOD,
            forall|t: int|
                0 <= t < s.len() ==> (#[trigger] s[t]).bounded(GRID_COORD_LIMIT as int),
            c.bounded(GRID_COORD_LIMIT as int),
            a <= n,
            (xx as int, xy as int, xz as int, yy as int, yz as int, zz as int) == spec_cov(
                s, c, a as int),
            -(1_100_000_000_000 * (a as int)) <= xx <= 1_100_000_000_000 * (a as int),
            -(1_100_000_000_000 * (a as int)) <= xy <= 1_100_000_000_000 * (a as int),
            -(1_100_000_000_000 * (a as int)) <= xz <= 1_100_000_000_000 * (a as int),
            -(1_100_000_000_000 * (a as int)) <= yy <= 1_100_000_000_000 * (a as int),
            -(1_100_000_000_000 * (a as int)) <= yz <= 1_100_000_000_000 * (a as int),
            -(1_100_000_000_000 * (a as int)) <= zz <= 1_100_000_000_000 * (a as int),
        decreases n - a,
    {
        let p = points[a];
        let dx: i128 = (p.x - c.x) as i128;
        let dy: i128 = (p.y - c.y) as i128;
        let dz: i128 = (p.z - c.z) as i128;
        proof {
            lemma_cov_step(dx as int, dy as int, dz as int);
            assert(1_100_000_000_000int * (a + 1) == 1_100_000_000_000int * (a as int)
                + 1_100_000_000_000) by (nonlinear_arith);
            assert(1_100_000_000_000int * (a as int) <= 1_100_000_000_000int * 1_000_000)
                by (nonlinear_arith)
                requires a as int <= 1_000_000;
        }
        xx = xx + dx * dx;
        xy = xy + dx * dy;
        xz = xz + dx * dz;
        yy = yy + dy * dy;
        yz = yz + dy * dz;
        zz = zz + dz * dz;
        a = a + 1;
    }
    proof {
        assert(1_100_000_000_000int * (n as int) <= 1_100_000_000_000_000_000int)
            by (nonlinear_arith)
            requires n as int <= 1_000_000;
    }
    smallest_eigenvector(xx, xy, xz, yy, yz, zz)
}

/// Finds the normal direction of a symmetric covariance matrix: the cross
/// product of its two dominant eigenvectors, each found by twenty rounds
/// of power iteration with rescaling.
pub fn smallest_eigenvector(
    xx: i128,
    xy: i128,
    xz: i128,
    yy: i128,
    yz: i128,
    zz: i128,
) -> (r: BaseVector)
    requires
        -2_000_000_000_000_000_000 <= xx <= 2_000_000_000_000_000_000,
        -2_000_000_000_000_000_000 <= xy <= 2_000_000_000_000_000_000,
        -2_000_000_000_000_000_000 <= xz <= 2_000_000_000_000_000_000,
        -2_000_000_000_000_000_000 <= yy <= 2_000_000_000_000_000_000,
        -2_000_000_000_000_000_000 <= yz <= 2_000_000_000_000_000_000,
        -2_000_000_000_000_000_000 <= zz <= 2_000_000_000_000_000_000,
    ensures
        r == spec_smallest_eigenvector(
            (xx as int, xy as int, xz as int, yy as int, yz as int, zz as int)),
        r.bounded(NORMAL_SCALE as int),
{
    let ghost m = (xx as int, xy as int, xz as int, yy as int, yz as int, zz as int);
    let seed1 = BaseVector { x: NORMAL_SCALE, y: 0, z: 0 };
    let v1 = power_iterate(xx, xy, xz, yy, yz, zz, seed1);
    let vx = v1.x as i128;
    let vy = v1.y as i128;
    let vz = v1.z as i128;
    proof {
        lemma_mat_vec_bounds(m, v1);
        lemma_rayleigh_bounds(m, v1);
    }
    let w0: i128 = xx * vx + xy * vy + xz * vz;
    let w1: i128 = xy * vx + yy * vy + yz * vz;
    let w2: i128 = xz * vx + yz * vy + zz * vz;
    let num: i128 = vx * w0 + vy * w1 + vz * w2;
    let s4: i128 = 1_099_511_627_776;
    proof {
        assert((NORMAL_SCALE as int) * (NORMAL_SCALE as int) * (NORMAL_SCALE as int)
            * (NORMAL_SCALE as int) == 1_099_511_627_776) by (nonlinear_arith)
            requires NORMAL_SCALE as int == 1024;
        let dlim = 90_000_000_000_000_000_000int;
        assert(dlim * (s4 as int) == 98_956_046_499_840_000_000_000_000_000_000int)
            by (nonlinear_arith)
            requires dlim == 90_000_000_000_000_000_000int && s4 as int == 1_099_511_627_776;
        crate::scalar::lemma_div_bound_by((num * vx * vx) as int, s4 as int, dlim);
        crate::scalar::lemma_div_bound_by((num * vx * vy) as int, s4 as int, dlim);
        crate::scalar::lemma_div_bound_by((num * vx * vz) as int, s4 as int, dlim);
        crate::scalar::lemma_div_bound_by((num * vy * vy) as int, s4 as int, dlim);
        crate::scalar::lemma_div_bound_by((num * vy * vz) as int, s4 as int, dlim);
        crate::scalar::lemma_div_bound_by((num * vz * vz) as int, s4 as int, dlim);
    }
    let d_xx = xx - div_floor_i128(num * vx * vx, s4);
    let d_xy = xy - div_floor_i128(num * vx * vy, s4);
    let d_xz = xz - div_floor_i128(num * vx * vz, s4);
    let d_yy = yy - div_floor_i128(num * vy * vy, s4);
    let d_yz = yz - div_floor_i128(num * vy * vz, s4);
    let d_zz = zz - div_floor_i128(num * vz * vz, s4);
    let ghost m2 = spec_deflate(m, v1);
    proof {
        assert((d_xx as int, d_xy as int, d_xz as int, d_yy as int, d_yz as int, d_zz as int)
            == m2);
    }
    let axv1 = if v1.x >= 0 {
        v1.x
    } else {
        -v1.x
    };
    let seed2 = if axv1 * 10 < 9 * NORMAL_SCALE {
        BaseVector { x: NORMAL_SCALE, y: 0, z: 0 }
    } else {
        BaseVector { x: 0, y: NORMAL_SCALE, z: 0 }
    };
    let v2 = power_iterate(d_xx, d_xy, d_xz, d_yy, d_yz, d_zz, seed2);
    let cvec = v1.cross(&v2);
    proof {
        crate::scalar::lemma_mul_bounds(v1.y as int, v2.z as int, 1024, 1024);
        crate::scalar::lemma_mul_bounds(v1.z as int, v2.y as int, 1024, 1024);
        crate::scalar::lemma_mul_bounds(v1.z as int, v2.x as int, 1024, 1024);
        crate::scalar::lemma_mul_bounds(v1.x as int, v2.z as int, 1024, 1024);
        crate::scalar::lemma_mul_bounds(v1.x as int, v2.y as int, 1024, 1024);
        crate::scalar::lemma_mul_bounds(v1.y as int, v2.x as int, 1024, 1024);
    }
    let l2 = cvec.length2();
    if l2 == 0 {
        proof {
            crate::scalar::lemma_isqrt_unique(0, 0, 0);
        }
        BaseVector { x: 0, y: 0, z: NORMAL_SCALE }
    } else {
        cvec.normalized()
    }
}

/// Twenty rounds of power iteration on a symmetric matrix from a bounded
/// seed, each round rescaled to `NORMAL_SCALE`.
fn power_iterate(
    xx: i128,
    xy: i128,
    xz: i128,
    yy: i128,
    yz: i128,
    zz: i128,
    seed: BaseVector,
) -> (r: BaseVector)
    requires
        -100_000_000_000_000_000_000 <= xx <= 100_000_000_000_000_000_000,
        -100_000_000_000_000_000_000 <= xy <= 100_000_000_000_000_000_000,
        -100_000_000_000_000_000_000 <= xz <= 100_000_000_000_000_000_000,
        -100_000_000_000_000_000_000 <= yy <= 100_000_000_000_000_000_000,
        -100_000_000_000_000_000_000 <= yz <= 100_000_000_000_000_000_000,
        -100_000_000_000_000_000_000 <= zz <= 100_000_000_000_000_000_000,
        seed.bounded(NORMAL_SCALE as int),
    ensures
        r == spec_power_iter(
            (xx as int, xy as int, xz as int, yy as int, yz as int, zz as int), seed, 20),
        r.bounded(NORMAL_SCALE as int),
{
    let ghost m = (xx as int, xy as int, xz as int, yy as int, yz as int, zz as int);
    let mut v = seed;
    let mut it: usize = 0;
    while it < 20
        invariant
            m == (xx as int, xy as int, xz as int, yy as int, yz as int, zz as int),
            -100_000_000_000_000_000_000 <= xx <= 100_000_000_000_000_000_000,
            -100_000_000_000_000_000_000 <= xy <= 100_000_000_000_000_000_000,
            -100_000_000_000_000_000_000 <= xz <= 100_000_000_000_000_000_000,
            -100_000_000_000_000_000_000 <= yy <= 100_000_000_000_000_000_000,
            -100_000_000_000_000_000_000 <= yz <= 100_000_000_000_000_000_000,
            -100_000_000_000_000_000_000 <= zz <= 100_000_000_000_000_000_000,
            it <= 20,
            v == spec_power_iter(m, seed, it as nat),
            v.bounded(NORMAL_SCALE as int),
        decreases 20 - it,
    {
        proof {
            lemma_mat_vec_bounds(m, v);
        }
        let vx = v.x as i128;
        let vy = v.y as i128;
        let vz = v.z as i128;
        let w0: i128 = xx * vx + xy * vy + xz * vz;
        let w1: i128 = xy * vx + yy * vy + yz * vz;
        let w2: i128 = xz * vx + yz * vy + zz * vz;
        let sh = shrink3(w0, w1, w2);
        if sh.0 == 0 && sh.1 == 0 && sh.2 == 0 {
            // the iterate is kept when the product vanishes
        } else {
            let sv = BaseVector { x: sh.0, y: sh.1, z: sh.2 };
            proof {
                lemma_nonzero_shrink_length(sv);
            }
            v = sv.normalized();
        }
        it = it + 1;
    }
    v
}

/// Halves the components of a vector until each lies within the shrink
/// bound, keeping the direction to within rounding.
fn shrink3(w0: i128, w1: i128, w2: i128) -> (r: (i64, i64, i64))
    requires
        -1_000_000_000_000_000_000_000_000_000_000 <= w0
            <= 1_000_000_000_000_000_000_000_000_000_000,
        -1_000_000_000_000_000_000_000_000_000_000 <= w1
            <= 1_000_000_000_000_000_000_000_000_000_000,
        -1_000_000_000_000_000_000_000_000_000_000 <= w2
            <= 1_000_000_000_000_000_000_000_000_000_000,
    ensures
        (r.0 as int, r.1 as int, r.2 as int) == spec_shrink((w0 as int, w1 as int, w2 as int)),
        -1_000_000_000_000_000 <= r.0 <= 1_000_000_000_000_000,
        -1_000_000_000_000_000 <= r.1 <= 1_000_000_000_000_000,
        -1_000_000_000_000_000 <= r.2 <= 1_000_000_000_000_000,
{
    let mut a = w0;
    let mut b = w1;
    let mut c = w2;
    while !(-1_000_000_000_000_000 <= a && a <= 1_000_000_000_000_000
        && -1_000_000_000_000_000 <= b && b <= 1_000_000_000_000_000
        && -1_000_000_000_000_000 <= c && c <= 1_000_000_000_000_000)
        invariant
            spec_shrink((a as int, b as int, c as int)) == spec_shrink(
                (w0 as int, w1 as int, w2 as int)),
            -1_000_000_000_000_000_000_000_000_000_000 <= a
                <= 1_000_000_000_000_000_000_000_000_000_000,
            -1_000_000_000_000_000_000_000_000_000_000 <= b
                <= 1_000_000_000_000_000_000_000_000_000_000,
            -1_000_000_000_000_000_000_000_000_000_000 <= c
                <= 1_000_000_000_000_000_000_000_000_000_000,
        decreases abs3((a as int, b as int, c as int)),
    {
        let ghost before = (a as int, b as int, c as int);
        a = div_floor_i128(a, 2);
        b = div_floor_i128(b, 2);
        c = div_floor_i128(c, 2);
        proof {
            lemma_halving_shrinks(before);
            lemma_half_abs(before.0);
            lemma_half_abs(before.1);
            lemma_half_abs(before.2);
        }
    }
    (a as i64, b as i64, c as i64)
}

/// Halving a vector that is out of the shrink bound strictly reduces the
/// magnitude sum, and the shrink result is unchanged.
proof fn lemma_halving_shrinks(w: (int, int, int))
    requires
        !(-1_000_000_000_000_000 <= w.0 <= 1_000_000_000_000_000
            && -1_000_000_000_000_000 <= w.1 <= 1_000_000_000_000_000
            && -1_000_000_000_000_000 <= w.2 <= 1_000_000_000_000_000),
    ensures
        abs3((w.0 / 2, w.1 / 2, w.2 / 2)) < abs3(w),
        spec_shrink((w.0 / 2, w.1 / 2, w.2 / 2)) == spec_shrink(w),
{
    lemma_half_abs(w.0);
    lemma_half_abs(w.1);
    lemma_half_abs(w.2);
}

/// Floor-halving never grows a value's magnitude, and strictly shrinks
/// any value of magnitude at least two.
proof fn lemma_half_abs(x: int)
    ensures
        x >= 0 ==> 0 <= x / 2 <= x,
        x < 0 ==> x <= x / 2 <= 0,
        x >= 2 ==> x / 2 < x,
        x <= -2 ==> x / 2 > x,
{
    crate::scalar::lemma_div_shrinks(x, 2);
    vstd::arithmetic::div_mod::lemma_fundamental_div_mod(x, 2);
    vstd::arithmetic::div_mod::lemma_mod_division_less_than_divisor(x, 2);
    if x >= 2 {
        assert(2 * (x / 2) == x - x % 2);
    }
    if x <= -2 {
        assert(2 * (x / 2) == x - x % 2);
        assert(x / 2 > x) by (nonlinear_arith)
            requires 2 * (x / 2) >= x - 1 && x <= -2;
    }
}

/// A nonzero shrunken vector has nonzero squared length.
proof fn lemma_nonzero_shrink_length(v: BaseVector)
    requires
        !(v.x == 0 && v.y == 0 && v.z == 0),
    ensures
        v.spec_length2() != 0,
{
    assert(v.x * v.x >= 0 && v.y * v.y >= 0 && v.z * v.z >= 0) by (nonlinear_arith);
    if v.x != 0 {
        assert(v.x * v.x >= 1) by (nonlinear_arith)
            requires v.x != 0;
    } else if v.y != 0 {
        assert(v.y * v.y >= 1) by (nonlinear_arith)
            requires v.y != 0;
    } else {
        assert(v.z * v.z >= 1) by (nonlinear_arith)
            requires v.z != 0;
    }
}

/// Matrix entries and a `NORMAL_SCALE`-bounded vector keep the product
/// rows within 128 bits.
proof fn lemma_mat_vec_bounds(m: (int, int, int, int, int, int), v: BaseVector)
    requires
        -100_000_000_000_000_000_000 <= m.0 <= 100_000_000_000_000_000_000,
        -100_000_000_000_000_000_000 <= m.1 <= 100_000_000_000_000_000_000,
        -100_000_000_000_000_000_000 <= m.2 <= 100_000_000_000_000_000_000,
        -100_000_000_000_000_000_000 <= m.3 <= 100_000_000_000_000_000_000,
        -100_000_000_000_000_000_000 <= m.4 <= 100_000_000_000_000_000_000,
        -100_000_000_000_000_000_000 <= m.5 <= 100_000_000_000_000_000_000,
        v.bounded(NORMAL_SCALE as int),
    ensures
        ({
            let lim = 400_000_000_000_000_000_000_000int;
            &&& -lim <= spec_mat_vec(m, v).0 <= lim
            &&& -lim <= spec_mat_vec(m, v).1 <= lim
            &&& -lim <= spec_mat_vec(m, v).2 <= lim
            &&& -lim <= m.0 * v.x <= lim && -lim <= m.1 * v.y <= lim && -lim <= m.2 * v.z
                <= lim
            &&& -lim <= m.1 * v.x <= lim && -lim <= m.3 * v.y <= lim && -lim <= m.4 * v.z
                <= lim
            &&& -lim <= m.2 * v.x <= lim && -lim <= m.4 * v.y <= lim && -lim <= m.5 * v.z
                <= lim
        }),
{
    let cm = 100_000_000_000_000_000_000int;
    let cv = NORMAL_SCALE as int;
    assert(cm * cv < 400_000_000_000_000_000_000_000int) by (nonlinear_arith)
        requires cm == 100_000_000_000_000_000_000int && cv == 1024;
    crate::scalar::lemma_mul_bounds(m.0, v.x as int, cm, cv);
    crate::scalar::lemma_mul_bounds(m.1, v.y as int, cm, cv);
    crate::scalar::lemma_mul_bounds(m.2, v.z as int, cm, cv);
    crate::scalar::lemma_mul_bounds(m.1, v.x as int, cm, cv);
    crate::scalar::lemma_mul_bounds(m.3, v.y as int, cm, cv);
    crate::scalar::lemma_mul_bounds(m.4, v.z as int, cm, cv);
    crate::scalar::lemma_mul_bounds(m.2, v.x as int, cm, cv);
    crate::scalar::lemma_mul_bounds(m.4, v.y as int, cm, cv);
    crate::scalar::lemma_mul_bounds(m.5, v.z as int, cm, cv);
}

/// Bounds for the Rayleigh quotient and the deflation products of the
/// covariance matrix.
proof fn lemma_rayleigh_bounds(m: (int, int, int, int, int, int), v: BaseVector)
    requires
        -2_000_000_000_000_000_000 <= m.0 <= 2_000_000_000_000_000_000,
        -2_000_000_000_000_000_000 <= m.1 <= 2_000_000_000_000_000_000,
        -2_000_000_000_000_000_000 <= m.2 <= 2_000_000_000_000_000_000,
        -2_000_000_000_000_000_000 <= m.3 <= 2_000_000_000_000_000_000,
        -2_000_000_000_000_000_000 <= m.4 <= 2_000_000_000_000_000_000,
        -2_000_000_000_000_000_000 <= m.5 <= 2_000_000_000_000_000_000,
        v.bounded(NORMAL_SCALE as int),
    ensures
        ({
            let w = spec_mat_vec(m, v);
            let num = v.x * w.0 + v.y * w.1 + v.z * w.2;
            let plim = 3_000_000_000_000_000_000_000int;
            let wlim = 9_000_000_000_000_000_000_000int;
            let xlim = 10_000_000_000_000_000_000_000_000int;
            let nlim = 30_000_000_000_000_000_000_000_000int;
            let vlim = 31_000_000_000_000_000_000_000_000_000int;
            let vvlim = 32_000_000_000_000_000_000_000_000_000_000int;
            &&& -plim <= m.0 * v.x <= plim && -plim <= m.1 * v.y <= plim
                && -plim <= m.2 * v.z <= plim
            &&& -plim <= m.1 * v.x <= plim && -plim <= m.3 * v.y <= plim
                && -plim <= m.4 * v.z <= plim
            &&& -plim <= m.2 * v.x <= plim && -plim <= m.4 * v.y <= plim
                && -plim <= m.5 * v.z <= plim
            &&& -wlim <= w.0 <= wlim && -wlim <= w.1 <= wlim && -wlim <= w.2 <= wlim
            &&& -xlim <= v.x * w.0 <= xlim && -xlim <= v.y * w.1 <= xlim
                && -xlim <= v.z * w.2 <= xlim
            &&& -nlim <= num <= nlim
            &&& -vlim <= num * v.x <= vlim && -vlim <= num * v.y <= vlim
                && -vlim <= num * v.z <= vlim
            &&& -vvlim <= num * v.x * v.x <= vvlim && -vvlim <= num * v.x * v.y <= vvlim
                && -vvlim <= num * v.x * v.z <= vvlim
            &&& -vvlim <= num * v.y * v.y <= vvlim && -vvlim <= num * v.y * v.z <= vvlim
                && -vvlim <= num * v.z * v.z <= vvlim
        }),
{
    let cm = 2_000_000_000_000_000_000int;
    let cv = NORMAL_SCALE as int;
    crate::scalar::lemma_mul_bounds(m.0, v.x as int, cm, cv);
    crate::scalar::lemma_mul_bounds(m.1, v.y as int, cm, cv);
    crate::scalar::lemma_mul_bounds(m.2, v.z as int, cm, cv);
    crate::scalar::lemma_mul_bounds(m.1, v.x as int, cm, cv);
    crate::scalar::lemma_mul_bounds(m.3, v.y as int, cm, cv);
    crate::scalar::lemma_mul_bounds(m.4, v.z as int, cm, cv);
    crate::scalar::lemma_mul_bounds(m.2, v.x as int, cm, cv);
    crate::scalar::lemma_mul_bounds(m.4, v.y as int, cm, cv);
    crate::scalar::lemma_mul_bounds(m.5, v.z as int, cm, cv);
    assert(cm * cv == 2_048_000_000_000_000_000_000int) by (nonlinear_arith)
        requires cm == 2_000_000_000_000_000_000int && cv == 1024;
    let w = spec_mat_vec(m, v);
    let wlim = 9_000_000_000_000_000_000_000int;
    crate::scalar::lemma_mul_bounds(v.x as int, w.0, cv, wlim);
    crate::scalar::lemma_mul_bounds(v.y as int, w.1, cv, wlim);
    crate::scalar::lemma_mul_bounds(v.z as int, w.2, cv, wlim);
    assert(cv * wlim == 9_216_000_000_000_000_000_000_000int) by (nonlinear_arith)
        requires cv == 1024 && wlim == 9_000_000_000_000_000_000_000int;
    let num = v.x * w.0 + v.y * w.1 + v.z * w.2;
    let nlim = 30_000_000_000_000_000_000_000_000int;
    crate::scalar::lemma_mul_bounds(num, v.x as int, nlim, cv);
    crate::scalar::lemma_mul_bounds(num, v.y as int, nlim, cv);
    crate::scalar::lemma_mul_bounds(num, v.z as int, nlim, cv);
    assert(nlim * cv == 30_720_000_000_000_000_000_000_000_000int) by (nonlinear_arith)
        requires nlim == 30_000_000_000_000_000_000_000_000int && cv == 1024;
    let vlim = 31_000_000_000_000_000_000_000_000_000int;
    crate::scalar::lemma_mul_bounds(num * v.x, v.x as int, vlim, cv);
    crate::scalar::lemma_mul_bounds(num * v.x, v.y as int, vlim, cv);
    crate::scalar::lemma_mul_bounds(num * v.x, v.z as int, vlim, cv);
    crate::scalar::lemma_mul_bounds(num * v.y, v.y as int, vlim, cv);
    crate::scalar::lemma_mul_bounds(num * v.y, v.z as int, vlim, cv);
    crate::scalar::lemma_mul_bounds(num * v.z, v.z as int, vlim, cv);
    assert(vlim * cv == 31_744_000_000_000_000_000_000_000_000_000int) by (nonlinear_arith)
        requires vlim == 31_000_000_000_000_000_000_000_000_000int && cv == 1024;
}

/// The floor mean of points within a bound stays within the bound.
proof fn lemma_centroid_bounded(s: Seq<BaseVector>)
    requires
        s.len() > 0,
        s.len() <= MAX_NEIGHBORHOOD,
        forall|t: int|
            0 <= t < s.len() ==> (#[trigger] s[t]).bounded(GRID_COORD_LIMIT as int),
    ensures
        spec_centroid(s).bounded(GRID_COORD_LIMIT as int),
{
    let c = GRID_COORD_LIMIT as int;
    let n = s.len() as int;
    lemma_sum_bounded(s, c);
    let total = BaseVector::spec_sum(s);
    lemma_mean_in_range(total.0, n, c);
    lemma_mean_in_range(total.1, n, c);
    lemma_mean_in_range(total.2, n, c);
}

/// The componentwise sum of bounded points is bounded by the count times
/// the bound.
proof fn lemma_sum_bounded(s: Seq<BaseVector>, c: int)
    requires
        0 <= c,
        forall|t: int| 0 <= t < s.len() ==> (#[trigger] s[t]).bounded(c),
    ensures
        ({
            let total = BaseVector::spec_sum(s);
            let n = s.len() as int;
            &&& -(n * c) <= total.0 <= n * c
            &&& -(n * c) <= total.1 <= n * c
            &&& -(n * c) <= total.2 <= n * c
        }),
    decreases s.len(),
{
    let n = s.len() as int;
    if s.len() == 0 {
        assert(0 * c == 0) by (nonlinear_arith);
    } else {
        let pre = s.drop_last();
        assert forall|t: int| 0 <= t < pre.len() implies (#[trigger] pre[t]).bounded(c) by {
            assert(pre[t] == s[t]);
        }
        lemma_sum_bounded(pre, c);
        assert(s.last() == s[n - 1]);
        assert(s.last().bounded(c));
        assert(n * c == (n - 1) * c + c) by (nonlinear_arith);
    }
}

/// A sum of `n` values each within `c` has a floor mean within `c`.
proof fn lemma_mean_in_range(total: int, n: int, c: int)
    requires
        1 <= n,
        0 <= c,
        -(n * c) <= total <= n * c,
    ensures
        -c <= total / n <= c,
{
    vstd::arithmetic::div_mod::lemma_fundamental_div_mod(total, n);
    vstd::arithmetic::div_mod::lemma_mod_division_less_than_divisor(total, n);
    let q = total / n;
    assert(n * q == total - total % n);
    assert(q <= c) by (nonlinear_arith)
        requires n >= 1 && n * q <= n * c;
    assert(n * q >= -(n * c) - (n - 1));
    assert(n * (-c) == -(n * c)) by (nonlinear_arith);
    assert(q >= -c) by (nonlinear_arith)
        requires n >= 1 && n * q >= n * (-c) - (n - 1);
}

proof fn lemma_cov_step(dx: int, dy: int, dz: int)
    requires
        -1_000_001 <= dx <= 1_000_001,
        -1_000_001 <= dy <= 1_000_001,
        -1_000_001 <= dz <= 1_000_001,
    ensures
        -1_100_000_000_000 <= dx * dx <= 1_100_000_000_000,
        -1_100_000_000_000 <= dx * dy <= 1_100_000_000_000,
        -1_100_000_000_000 <= dx * dz <= 1_100_000_000_000,
        -1_100_000_000_000 <= dy * dy <= 1_100_000_000_000,
        -1_100_000_000_000 <= dy * dz <= 1_100_000_000_000,
        -1_100_000_000_000 <= dz * dz <= 1_100_000_000_000,
{
    crate::scalar::lemma_mul_bounds(dx, dx, 1_000_001, 1_000_001);
    crate::scalar::lemma_mul_bounds(dx, dy, 1_000_001, 1_000_001);
    crate::scalar::lemma_mul_bounds(dx, dz, 1_000_001, 1_000_001);
    crate::scalar::lemma_mul_bounds(dy, dy, 1_000_001, 1_000_001);
    crate::scalar::lemma_mul_bounds(dy, dz, 1_000_001, 1_000_001);
    crate::scalar::lemma_mul_bounds(dz, dz, 1_000_001, 1_000_001);
    assert(1_000_001 * 1_000_001 == 1_000_002_000_001) by (nonlinear_arith);
}

} // verus!
