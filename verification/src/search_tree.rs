//! Spatial search index over an immutable point set: nearest-neighbor and
//! radius queries with exact contracts.
//!
//! Neighbors are ordered by squared Euclidean distance; ties are broken by
//! the lower point index, so every query has exactly one answer.

use vstd::prelude::*;
use vstd::seq_lib::*;
use vstd::math::min;
use vstd::set_lib::{set_int_range, lemma_int_range, lemma_len_subset};
use crate::vector::{BaseVector, COORD_LIMIT};
use crate::point_buffer::PointBuffer;

verus! {

/// The comparison key of point `i` for a query `q`: squared distance first,
/// index second. Distinct points of one set always have distinct keys.
pub open spec fn nn_key(pts: Seq<BaseVector>, q: BaseVector, i: int) -> int {
    pts[i].spec_sub(q).spec_length2() * 0x1_0000_0000 + i
}

/// The unique unselected index with the smallest key.
pub open spec fn next_nn(pts: Seq<BaseVector>, q: BaseVector, taken: Seq<int>) -> int {
    choose|m: int|
        0 <= m < pts.len() && !taken.contains(m) && forall|j: int|
            0 <= j < pts.len() && !taken.contains(j) ==> nn_key(pts, q, m) <= #[trigger] nn_key(
                pts, q, j)
}

/// The first `k` point indices in ascending key order.
pub open spec fn knn_prefix(pts: Seq<BaseVector>, q: BaseVector, k: nat) -> Seq<int>
    decreases k,
{
    if k == 0 {
        Seq::empty()
    } else {
        let p = knn_prefix(pts, q, (k - 1) as nat);
        if p.len() < pts.len() {
            p.push(next_nn(pts, q, p))
        } else {
            p
        }
    }
}

/// A spatial search index for nearest-neighbor queries over a fixed point
/// set, answered by exhaustive scan.
pub struct SearchTree {
    /// The indexed points, in their original order.
    pub points: Vec<BaseVector>,
}

impl SearchTree {
    /// Every indexed point lies within the coordinate limit, and the index
    /// order can serve as a tie-breaker.
    pub open spec fn wf(self) -> bool {
        &&& forall|i: int|
            0 <= i < self.points@.len()
                ==> (#[trigger] self.points@[i]).bounded(COORD_LIMIT as int)
        &&& self.points@.len() < 0x1_0000_0000
    }

    /// Creates a new search index over the points of a buffer.
    pub fn new(buffer: &PointBuffer) -> (r: Self)
        requires
            buffer.wf(),
            buffer.points_bounded(COORD_LIMIT as int),
            buffer.spec_num_points() < 0x1_0000_0000,
        ensures
            r.points@ == buffer.spec_points_seq(),
            r.wf(),
    {
        let points = buffer.points();
        SearchTree { points }
    }

    /// Creates a new search index from a vector of points.
    pub fn from_points(points: Vec<BaseVector>) -> (r: Self)
        requires
            forall|i: int|
                0 <= i < points@.len()
                    ==> (#[trigger] points@[i]).bounded(COORD_LIMIT as int),
            points@.len() < 0x1_0000_0000,
        ensures
            r.points@ == points@,
            r.wf(),
    {
        SearchTree { points }
    }

    /// Finds the indices of the `k` nearest points to the query, in
    /// ascending distance order, ties broken by the lower index.
    #[verifier::rlimit(50)]
    pub fn knn_indices(&self, query: &BaseVector, k: usize) -> (r: Vec<usize>)
        requires
            self.wf(),
            query.bounded(COORD_LIMIT as int),
        ensures
            r@.len() == min(k as int, self.points@.len() as int),
            forall|a: int|
                0 <= a < r@.len() ==> #[trigger] r@[a] == knn_prefix(
                    self.points@, *query, k as nat)[a],
            forall|a: int| 0 <= a < r@.len() ==> #[trigger] r@[a] < self.points@.len(),
            forall|a: int, b: int|
                0 <= a < b < r@.len() ==> nn_key(self.points@, *query, #[trigger] r@[a] as int)
                    < nn_key(self.points@, *query, #[trigger] r@[b] as int),
            forall|a: int, b: int|
                0 <= a < b < r@.len()
                    ==> (self.points@[#[trigger] r@[a] as int]).spec_sub(*query).spec_length2()
                        <= (self.points@[#[trigger] r@[b] as int]).spec_sub(
                        *query).spec_length2(),
            forall|j: int, a: int|
                0 <= j < self.points@.len() && 0 <= a < r@.len() && !r@.map_values(
                    |u: usize| u as int).contains(j)
                    ==> #[trigger] nn_key(self.points@, *query, r@[a] as int)
                        <= #[trigger] nn_key(self.points@, *query, j),
    {
        let n = self.points.len();
        let count = if k < n {
            k
        } else {
            n
        };
        let mut used: Vec<bool> = Vec::new();
        let mut u: usize = 0;
        while u < n
            invariant
                u <= n,
                used@.len() == u,
                forall|j: int| 0 <= j < u ==> !(#[trigger] used@[j]),
            decreases n - u,
        {
            used.push(false);
            u = u + 1;
        }
        let mut out: Vec<usize> = Vec::new();
        let ghost pts = self.points@;
        let ghost q = *query;
        while out.len() < count
            invariant
                self.wf(),
                q == *query,
                query.bounded(COORD_LIMIT as int),
                pts == self.points@,
                n == pts.len(),
                count == min(k as int, n as int),
                out@.len() <= count,
                used@.len() == n,
                forall|a: int|
                    0 <= a < out@.len() ==> #[trigger] out@[a] == knn_prefix(
                        pts, q, k as nat)[a],
                forall|a: int|
                    0 <= a < out@.len() ==> #[trigger] out@[a] == knn_prefix(
                        pts, q, out@.len() as nat)[a],
                out@.map_values(|x: usize| x as int) == knn_prefix(pts, q, out@.len() as nat),
                forall|a: int| 0 <= a < out@.len() ==> #[trigger] out@[a] < n,
                forall|j: int|
                    0 <= j < n ==> #[trigger] used@[j] == out@.map_values(
                        |x: usize| x as int).contains(j),
                forall|a: int, b: int|
                    0 <= a < b < out@.len() ==> nn_key(pts, q, #[trigger] out@[a] as int)
                        < nn_key(pts, q, #[trigger] out@[b] as int),
                forall|j: int|
                    0 <= j < n && !used@[j] ==> forall|a: int|
                        0 <= a < out@.len() ==> nn_key(pts, q, #[trigger] out@[a] as int)
                            < nn_key(pts, q, j),
            decreases count - out.len(),
        {
            let ghost taken = out@.map_values(|x: usize| x as int);
            let mut best: usize = n;
            let mut best_d2: i64 = 0;
            let mut j: usize = 0;
            while j < n
                invariant
                    self.wf(),
                    q == *query,
                    query.bounded(COORD_LIMIT as int),
                    pts == self.points@,
                    n == pts.len(),
                    used@.len() == n,
                    taken == out@.map_values(|x: usize| x as int),
                    forall|t: int|
                        0 <= t < n ==> #[trigger] used@[t] == taken.contains(t),
                    j <= n,
                    best == n || (best < j && !used@[best as int] && best_d2 == pts[
                        best as int].spec_sub(q).spec_length2()),
                    best == n ==> forall|t: int| 0 <= t < j ==> #[trigger] used@[t],
                    best < n ==> forall|t: int|
                        0 <= t < j && !(#[trigger] used@[t]) ==> nn_key(pts, q, best as int)
                            <= nn_key(pts, q, t),
                decreases n - j,
            {
                if !used[j] {
                    let p = self.points[j];
                    let d2 = p.distance2(query);
                    if best == n || d2 < best_d2 || (d2 == best_d2 && j < best) {
                        proof {
                            if best < n {
                                lemma_key_order(pts, q, j as int, best as int);
                            }
                        }
                        best = j;
                        best_d2 = d2;
                    } else {
                        proof {
                            lemma_key_order(pts, q, best as int, j as int);
                        }
                    }
                }
                j = j + 1;
            }
            if best == n {
                proof {
                    lemma_unused_exists(taken, n as int);
                    let t = choose|t: int| 0 <= t < n && !taken.contains(t);
                    assert(used@[t]);
                    assert(false);
                }
                return out;
            }
            proof {
                let m = best as int;
                assert forall|t: int| 0 <= t < pts.len() && !taken.contains(t)
                    implies nn_key(pts, q, m) <= #[trigger] nn_key(pts, q, t) by {
                    assert(used@[t] == taken.contains(t));
                    assert(!used@[t]);
                }
                assert(used@[m] == taken.contains(m));
                assert(0 <= m < pts.len() && !taken.contains(m) && forall|t: int|
                    0 <= t < pts.len() && !taken.contains(t) ==> nn_key(pts, q, m)
                        <= #[trigger] nn_key(pts, q, t));
                let w = next_nn(pts, q, taken);
                assert(0 <= w < pts.len() && !taken.contains(w) && forall|t: int|
                    0 <= t < pts.len() && !taken.contains(t) ==> nn_key(pts, q, w)
                        <= #[trigger] nn_key(pts, q, t));
                lemma_key_injective(pts, q, m, w);
                assert(m == w);
            }
            let ghost prev_len = out@.len();
            out.push(best);
            used[best] = true;
            proof {
                assert(out@.map_values(|x: usize| x as int) =~= taken.push(best as int));
                assert(knn_prefix(pts, q, (prev_len + 1) as nat) == taken.push(best as int));
                lemma_knn_prefix_extends(pts, q, (prev_len + 1) as nat, k as nat);
                assert forall|t: int| 0 <= t < n implies #[trigger] used@[t]
                    == taken.push(best as int).contains(t) by {
                    if taken.contains(t) {
                        let a = choose|a: int| 0 <= a < taken.len() && taken[a] == t;
                        assert(taken.push(best as int)[a] == t);
                    }
                    if t == best as int {
                        assert(taken.push(best as int)[taken.len() as int] == t);
                    }
                    if used@[t] && t != best as int {
                        assert(taken.contains(t));
                    }
                    if taken.push(best as int).contains(t) {
                        let a = choose|a: int|
                            0 <= a < taken.push(best as int).len() && taken.push(
                                best as int)[a] == t;
                        if a < taken.len() {
                            assert(taken[a] == t);
                        }
                    }
                }
            }
        }
        proof {
            assert forall|a: int, b: int|
                0 <= a < b < out@.len() implies (pts[#[trigger] out@[a] as int]).spec_sub(
                    q).spec_length2() <= (pts[#[trigger] out@[b] as int]).spec_sub(
                    q).spec_length2() by {
                lemma_key_d2_order(pts, q, out@[a] as int, out@[b] as int);
            }
            assert forall|j: int, a: int|
                0 <= j < pts.len() && 0 <= a < out@.len() && !out@.map_values(
                    |u: usize| u as int).contains(j)
                implies #[trigger] nn_key(pts, q, out@[a] as int)
                    <= #[trigger] nn_key(pts, q, j) by {
                assert(used@[j] == out@.map_values(|u: usize| u as int).contains(j));
            }
        }
        out
    }

    /// Finds the `k` nearest points to the query, in ascending distance
    /// order, ties broken by the lower index.
    pub fn knn(&self, query: &BaseVector, k: usize) -> (r: Vec<BaseVector>)
        requires
            self.wf(),
            query.bounded(COORD_LIMIT as int),
        ensures
            r@.len() == min(k as int, self.points@.len() as int),
            forall|a: int|
                0 <= a < r@.len() ==> #[trigger] r@[a] == self.points@[knn_prefix(
                    self.points@, *query, k as nat)[a]],
            forall|a: int|
                0 <= a < r@.len() ==> 0 <= #[trigger] knn_prefix(self.points@, *query,
                    k as nat)[a] < self.points@.len(),
            forall|a: int, b: int|
                0 <= a < b < r@.len() ==> (#[trigger] r@[a]).spec_sub(*query).spec_length2()
                    <= (#[trigger] r@[b]).spec_sub(*query).spec_length2(),
    {
        let idx = self.knn_indices(query, k);
        proof {
            assert forall|a: int| 0 <= a < idx@.len()
                implies 0 <= #[trigger] knn_prefix(self.points@, *query, k as nat)[a]
                    < self.points@.len() by {
                assert(idx@[a] == knn_prefix(self.points@, *query, k as nat)[a]);
                assert(idx@[a] < self.points@.len());
            }
        }
        let mut r: Vec<BaseVector> = Vec::new();
        let mut i: usize = 0;
        while i < idx.len()
            invariant
                self.wf(),
                i <= idx@.len(),
                r@.len() == i,
                forall|a: int| 0 <= a < idx@.len() ==> #[trigger] idx@[a] < self.points@.len(),
                forall|a: int|
                    0 <= a < i ==> #[trigger] r@[a] == self.points@[idx@[a] as int],
            decreases idx@.len() - i,
        {
            let id = idx[i];
            r.push(self.points[id]);
            i = i + 1;
        }
        r
    }

    /// Finds all points within the given radius of the query, boundary
    /// included, in index order.
    pub fn radius_search(&self, query: &BaseVector, radius: i64) -> (r: Vec<BaseVector>)
        requires
            self.wf(),
            query.bounded(COORD_LIMIT as int),
            0 <= radius <= 2_000_000_000,
        ensures
            r@ == spec_in_radius(self.points@, *query, (radius * radius) as int,
                self.points@.len() as int),
    {
        let ghost pts = self.points@;
        let ghost q = *query;
        proof {
            crate::scalar::lemma_mul_bounds(radius as int, radius as int, 2_000_000_000,
                2_000_000_000);
        }
        let r2: i64 = radius * radius;
        let n = self.points.len();
        let mut out: Vec<BaseVector> = Vec::new();
        let mut i: usize = 0;
        while i < n
            invariant
                self.wf(),
                q == *query,
                query.bounded(COORD_LIMIT as int),
                pts == self.points@,
                n == pts.len(),
                i <= n,
                -4_000_000_000_000_000_000 <= r2 <= 4_000_000_000_000_000_000,
                r2 == radius * radius,
                out@ == spec_in_radius(pts, q, r2 as int, i as int),
            decreases n - i,
        {
            let p = self.points[i];
            let d2 = p.distance2(query);
            if d2 <= r2 {
                out.push(p);
            }
            i = i + 1;
        }
        out
    }

    /// Returns the number of indexed points.
    pub fn size(&self) -> (r: usize)
        ensures
            r == self.points@.len(),
    {
        self.points.len()
    }

    /// Gets the indexed point at the given index.
    pub fn get_point(&self, index: usize) -> (r: Option<BaseVector>)
        ensures
            index < self.points@.len() ==> r == Some(self.points@[index as int]),
            index >= self.points@.len() ==> r is None,
    {
        if index < self.points.len() {
            Some(self.points[index])
        } else {
            None
        }
    }
}

/// The points within squared radius `r2` of `q` among the first `upto`,
/// in index order.
pub open spec fn spec_in_radius(pts: Seq<BaseVector>, q: BaseVector, r2: int, upto: int) -> Seq<
    BaseVector,
>
    decreases upto,
{
    if upto <= 0 {
        Seq::empty()
    } else {
        let prev = spec_in_radius(pts, q, r2, upto - 1);
        if pts[upto - 1].spec_sub(q).spec_length2() <= r2 {
            prev.push(pts[upto - 1])
        } else {
            prev
        }
    }
}

/// Key order matches distance-then-index order.
proof fn lemma_key_order(pts: Seq<BaseVector>, q: BaseVector, a: int, b: int)
    requires
        0 <= a < pts.len(),
        0 <= b < pts.len(),
        pts.len() < 0x1_0000_0000,
        ({
            let da = pts[a].spec_sub(q).spec_length2();
            let db = pts[b].spec_sub(q).spec_length2();
            da < db || (da == db && a <= b)
        }),
    ensures
        nn_key(pts, q, a) <= nn_key(pts, q, b),
{
    let da = pts[a].spec_sub(q).spec_length2();
    let db = pts[b].spec_sub(q).spec_length2();
    if da < db {
        assert(da * 0x1_0000_0000 + 0x1_0000_0000 <= db * 0x1_0000_0000) by (nonlinear_arith)
            requires da < db;
    }
}

/// Smaller key can only come with a distance that is not larger.
proof fn lemma_key_d2_order(pts: Seq<BaseVector>, q: BaseVector, a: int, b: int)
    requires
        0 <= a < pts.len(),
        0 <= b < pts.len(),
        pts.len() < 0x1_0000_0000,
        nn_key(pts, q, a) < nn_key(pts, q, b),
    ensures
        pts[a].spec_sub(q).spec_length2() <= pts[b].spec_sub(q).spec_length2(),
{
    let da = pts[a].spec_sub(q).spec_length2();
    let db = pts[b].spec_sub(q).spec_length2();
    if da > db {
        assert(db * 0x1_0000_0000 + 0x1_0000_0000 <= da * 0x1_0000_0000) by (nonlinear_arith)
            requires db < da;
    }
}

/// Equal keys name the same point.
proof fn lemma_key_injective(pts: Seq<BaseVector>, q: BaseVector, a: int, b: int)
    requires
        0 <= a < pts.len(),
        0 <= b < pts.len(),
        pts.len() < 0x1_0000_0000,
        nn_key(pts, q, a) <= nn_key(pts, q, b),
        nn_key(pts, q, b) <= nn_key(pts, q, a),
    ensures
        a == b,
{
    let da = pts[a].spec_sub(q).spec_length2();
    let db = pts[b].spec_sub(q).spec_length2();
    if da < db {
        assert(da * 0x1_0000_0000 + 0x1_0000_0000 <= db * 0x1_0000_0000) by (nonlinear_arith)
            requires da < db;
    }
    if db < da {
        assert(db * 0x1_0000_0000 + 0x1_0000_0000 <= da * 0x1_0000_0000) by (nonlinear_arith)
            requires db < da;
    }
    assert(da == db);
    assert(da * 0x1_0000_0000 == db * 0x1_0000_0000);
}

/// Fewer selections than indices leave some index unselected.
pub(crate) proof fn lemma_unused_exists(taken: Seq<int>, n: int)
    requires
        0 <= n,
        taken.len() < n,
    ensures
        exists|t: int| 0 <= t < n && !taken.contains(t),
{
    if !(exists|t: int| 0 <= t < n && !taken.contains(t)) {
        let range = set_int_range(0, n);
        lemma_int_range(0, n);
        assert(range.subset_of(taken.to_set())) by {
            assert forall|t: int| range.contains(t) implies taken.to_set().contains(t) by {
                assert(!(0 <= t < n && !taken.contains(t)));
            }
        }
        taken.lemma_cardinality_of_set();
        assert(taken.to_set().finite()) by {
            broadcast use vstd::seq_lib::seq_to_set_is_finite;
        }
        lemma_len_subset(range, taken.to_set());
        assert(n <= taken.to_set().len());
    }
}

/// Among the first `u` unselected indices, some unselected index has the
/// smallest key.
proof fn lemma_min_key_exists(pts: Seq<BaseVector>, q: BaseVector, taken: Seq<int>, u: int)
    requires
        0 <= u <= pts.len(),
        exists|j: int| 0 <= j < u && !taken.contains(j),
    ensures
        exists|m: int|
            0 <= m < u && !taken.contains(m) && forall|j: int|
                0 <= j < u && !taken.contains(j) ==> nn_key(pts, q, m) <= #[trigger] nn_key(
                    pts, q, j),
    decreases u,
{
    let last = u - 1;
    if exists|j: int| 0 <= j < u - 1 && !taken.contains(j) {
        lemma_min_key_exists(pts, q, taken, u - 1);
        let m0 = choose|m: int|
            0 <= m < u - 1 && !taken.contains(m) && forall|j: int|
                0 <= j < u - 1 && !taken.contains(j) ==> nn_key(pts, q, m)
                    <= #[trigger] nn_key(pts, q, j);
        if !taken.contains(last) && nn_key(pts, q, last) < nn_key(pts, q, m0) {
            assert(0 <= last < u && !taken.contains(last) && forall|j: int|
                0 <= j < u && !taken.contains(j) ==> nn_key(pts, q, last)
                    <= #[trigger] nn_key(pts, q, j));
        } else {
            assert(0 <= m0 < u && !taken.contains(m0) && forall|j: int|
                0 <= j < u && !taken.contains(j) ==> nn_key(pts, q, m0)
                    <= #[trigger] nn_key(pts, q, j));
        }
    } else {
        let w = choose|j: int| 0 <= j < u && !taken.contains(j);
        assert(w == last);
        assert(0 <= last < u && !taken.contains(last) && forall|j: int|
            0 <= j < u && !taken.contains(j) ==> nn_key(pts, q, last)
                <= #[trigger] nn_key(pts, q, j));
    }
}

/// When fewer indices are selected than there are points, the chosen next
/// nearest neighbor is a real, unselected point index with minimal key.
pub proof fn lemma_next_nn_valid(pts: Seq<BaseVector>, q: BaseVector, taken: Seq<int>)
    requires
        taken.len() < pts.len(),
    ensures
        ({
            let m = next_nn(pts, q, taken);
            0 <= m < pts.len() && !taken.contains(m) && forall|j: int|
                0 <= j < pts.len() && !taken.contains(j) ==> nn_key(pts, q, m)
                    <= #[trigger] nn_key(pts, q, j)
        }),
{
    lemma_unused_exists(taken, pts.len() as int);
    lemma_min_key_exists(pts, q, taken, pts.len() as int);
    let m0 = choose|m: int|
        0 <= m < pts.len() && !taken.contains(m) && forall|j: int|
            0 <= j < pts.len() && !taken.contains(j) ==> nn_key(pts, q, m)
                <= #[trigger] nn_key(pts, q, j);
    assert(0 <= m0 < pts.len() && !taken.contains(m0) && forall|j: int|
        0 <= j < pts.len() && !taken.contains(j) ==> nn_key(pts, q, m0)
            <= #[trigger] nn_key(pts, q, j));
}

/// A longer nearest-neighbor prefix extends a shorter one elementwise.
proof fn lemma_knn_prefix_extends(pts: Seq<BaseVector>, q: BaseVector, k1: nat, k2: nat)
    requires
        k1 <= k2,
    ensures
        forall|a: int|
            0 <= a < knn_prefix(pts, q, k1).len() ==> #[trigger] knn_prefix(pts, q, k2)[a]
                == knn_prefix(pts, q, k1)[a],
        knn_prefix(pts, q, k1).len() <= knn_prefix(pts, q, k2).len(),
        knn_prefix(pts, q, k1).len() == min(k1 as int, pts.len() as int),
    decreases k2,
{
    if k2 > k1 {
        lemma_knn_prefix_extends(pts, q, k1, (k2 - 1) as nat);
    } else {
        lemma_knn_prefix_len(pts, q, k1);
    }
}

/// The nearest-neighbor prefix holds as many indices as asked for, up to
/// the number of points.
pub proof fn lemma_knn_prefix_len(pts: Seq<BaseVector>, q: BaseVector, k: nat)
    ensures
        knn_prefix(pts, q, k).len() == min(k as int, pts.len() as int),
    decreases k,
{
    if k > 0 {
        lemma_knn_prefix_len(pts, q, (k - 1) as nat);
    }
}

} // verus!
