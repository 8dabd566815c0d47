//! Mesh post-processing: Laplacian smoothing, summary statistics, and the
//! placeholder cleanup stages, whose contracts say they leave the mesh as
//! it stands.

use vstd::prelude::*;
use crate::scalar::{is_sqrt, spec_isqrt, NORMAL_SCALE};
use crate::vector::BaseVector;
use crate::mesh_buffer::MeshBuffer;
use crate::marching_cubes::lemma_isqrt_exists;

verus! {

/// Largest vertex coordinate magnitude the statistics pass accepts.
pub const STATS_COORD_LIMIT: i64 = 10_000_000;

/// Summary measurements of a mesh: extreme and mean edge lengths, and the
/// total surface area in squared coordinate units.
#[derive(Debug)]
pub struct MeshStats {
    /// Number of vertices.
    pub num_vertices: usize,
    /// Number of faces.
    pub num_faces: usize,
    /// Shortest edge length; the largest `i64` for a mesh without faces.
    pub min_edge_length: i64,
    /// Longest edge length; zero for a mesh without faces.
    pub max_edge_length: i64,
    /// Mean edge length, rounded down; zero for a mesh without faces.
    pub avg_edge_length: i64,
    /// Total surface area, in squared coordinate units, rounded down.
    pub surface_area: i128,
}

/// The rounded lengths of the three edges of face `i`.
pub open spec fn spec_face_edge_lengths(m: MeshBuffer, i: int) -> (int, int, int) {
    let f = m.spec_face(i);
    let v0 = m.spec_vertex(f.0);
    let v1 = m.spec_vertex(f.1);
    let v2 = m.spec_vertex(f.2);
    (
        spec_isqrt(v0.spec_sub(v1).spec_length2()),
        spec_isqrt(v1.spec_sub(v2).spec_length2()),
        spec_isqrt(v2.spec_sub(v0).spec_length2()),
    )
}

/// Twice the area of face `i`, rounded down: the length of the cross
/// product of its two edge vectors.
pub open spec fn spec_face_area2(m: MeshBuffer, i: int) -> int {
    let f = m.spec_face(i);
    let v0 = m.spec_vertex(f.0);
    let v1 = m.spec_vertex(f.1);
    let v2 = m.spec_vertex(f.2);
    spec_isqrt(v1.spec_sub(v0).spec_cross(v2.spec_sub(v0)).spec_length2())
}

/// The running edge statistics over the first `upto` faces: shortest edge,
/// longest edge, edge length total and doubled area total, folded in face
/// order with each face's edges taken in order.
pub open spec fn spec_stats_fold(m: MeshBuffer, upto: int) -> (int, int, int, int)
    decreases upto,
{
    if upto <= 0 {
        (i64::MAX as int, 0, 0, 0)
    } else {
        let prev = spec_stats_fold(m, upto - 1);
        let e = spec_face_edge_lengths(m, upto - 1);
        let mn0 = if e.0 < prev.0 { e.0 } else { prev.0 };
        let mn1 = if e.1 < mn0 { e.1 } else { mn0 };
        let mn2 = if e.2 < mn1 { e.2 } else { mn1 };
        let mx0 = if e.0 > prev.1 { e.0 } else { prev.1 };
        let mx1 = if e.1 > mx0 { e.1 } else { mx0 };
        let mx2 = if e.2 > mx1 { e.2 } else { mx1 };
        (mn2, mx2, prev.2 + e.0 + e.1 + e.2, prev.3 + spec_face_area2(m, upto - 1))
    }
}

/// Computes summary statistics for a mesh: edge length extremes, the mean
/// edge length, and the total surface area.
pub fn compute_mesh_stats(mesh: &MeshBuffer) -> (r: MeshStats)
    requires
        mesh.wf(),
        mesh.faces_valid(),
        mesh.vertices_bounded(STATS_COORD_LIMIT as int),
        mesh.spec_num_faces() <= 1_000_000,
    ensures
        r.num_vertices == mesh.spec_num_vertices(),
        r.num_faces == mesh.spec_num_faces(),
        ({
            let st = spec_stats_fold(*mesh, mesh.spec_num_faces());
            &&& r.min_edge_length == st.0
            &&& r.max_edge_length == st.1
            &&& r.avg_edge_length == if mesh.spec_num_faces() > 0 {
                st.2 / (3 * mesh.spec_num_faces())
            } else {
                0
            }
            &&& r.surface_area == st.3 / 2
        }),
{
    let nf = mesh.num_faces();
    let mut min_edge: i64 = i64::MAX;
    let mut max_edge: i64 = 0;
    let mut total_edge: i64 = 0;
    let mut total_area2: i128 = 0;
    let mut i: usize = 0;
    while i < nf
        invariant
            mesh.wf(),
            mesh.faces_valid(),
            mesh.vertices_bounded(STATS_COORD_LIMIT as int),
            nf == mesh.spec_num_faces(),
            nf <= 1_000_000,
            i <= nf,
            (min_edge as int, max_edge as int, total_edge as int, total_area2 as int)
                == spec_stats_fold(*mesh, i as int),
            0 <= total_edge <= 120_000_000 * (i as int),
            0 <= total_area2 <= 1_400_000_000_000_000 * (i as int),
            0 <= max_edge <= 40_000_000,
        decreases nf - i,
    {
        let f = mesh.get_face(i).unwrap();
        let v0 = mesh.get_vertex(f[0] as usize).unwrap();
        let v1 = mesh.get_vertex(f[1] as usize).unwrap();
        let v2 = mesh.get_vertex(f[2] as usize).unwrap();
        proof {
            lemma_edge_len_small(v0, v1);
            lemma_edge_len_small(v1, v2);
            lemma_edge_len_small(v2, v0);
            assert(120_000_000 * (i as int + 1) == 120_000_000 * (i as int) + 120_000_000)
                by (nonlinear_arith);
            assert(120_000_000 * (i as int) <= 120_000_000_000_000int) by (nonlinear_arith)
                requires i as int <= 1_000_000;
        }
        let e0 = v0.distance(&v1);
        let e1 = v1.distance(&v2);
        let e2 = v2.distance(&v0);
        if e0 < min_edge {
            min_edge = e0;
        }
        if e1 < min_edge {
            min_edge = e1;
        }
        if e2 < min_edge {
            min_edge = e2;
        }
        if e0 > max_edge {
            max_edge = e0;
        }
        if e1 > max_edge {
            max_edge = e1;
        }
        if e2 > max_edge {
            max_edge = e2;
        }
        total_edge = total_edge + e0 + e1 + e2;
        let d1 = BaseVector { x: v1.x - v0.x, y: v1.y - v0.y, z: v1.z - v0.z };
        let d2 = BaseVector { x: v2.x - v0.x, y: v2.y - v0.y, z: v2.z - v0.z };
        let cr = d1.cross(&d2);
        proof {
            lemma_area2_small(d1, d2, cr);
            assert(1_400_000_000_000_000int * (i as int + 1) == 1_400_000_000_000_000int
                * (i as int) + 1_400_000_000_000_000) by (nonlinear_arith);
            assert(1_400_000_000_000_000int * (i as int)
                <= 1_400_000_000_000_000_000_000int) by (nonlinear_arith)
                requires i as int <= 1_000_000;
        }
        let a2 = cr.length();
        total_area2 = total_area2 + (a2 as i128);
        i = i + 1;
    }
    let avg: i64 = if nf > 0 {
        let q: u64 = (total_edge as u64) / (3 * (nf as u64));
        proof {
            vstd::arithmetic::div_mod::lemma_fundamental_div_mod(total_edge as int,
                3 * (nf as int));
        }
        q as i64
    } else {
        0
    };
    let area: i128 = {
        let q: u128 = (total_area2 as u128) / 2;
        proof {
            vstd::arithmetic::div_mod::lemma_fundamental_div_mod(total_area2 as int, 2);
        }
        q as i128
    };
    MeshStats {
        num_vertices: mesh.num_vertices(),
        num_faces: nf,
        min_edge_length: min_edge,
        max_edge_length: max_edge,
        avg_edge_length: avg,
        surface_area: area,
    }
}

/// Edges between vertices within the statistics bound stay short.
proof fn lemma_edge_len_small(p: BaseVector, q: BaseVector)
    requires
        p.bounded(STATS_COORD_LIMIT as int),
        q.bounded(STATS_COORD_LIMIT as int),
    ensures
        0 <= spec_isqrt(p.spec_sub(q).spec_length2()) <= 40_000_000,
{
    let d = p.spec_sub(q);
    crate::scalar::lemma_mul_bounds(d.x as int, d.x as int, 20_000_000, 20_000_000);
    crate::scalar::lemma_mul_bounds(d.y as int, d.y as int, 20_000_000, 20_000_000);
    crate::scalar::lemma_mul_bounds(d.z as int, d.z as int, 20_000_000, 20_000_000);
    assert(20_000_000 * 20_000_000 == 400_000_000_000_000int) by (nonlinear_arith);
    let l2 = d.spec_length2();
    assert(l2 >= 0) by {
        assert(d.x * d.x >= 0 && d.y * d.y >= 0 && d.z * d.z >= 0) by (nonlinear_arith);
    }
    lemma_isqrt_exists(l2);
    let root = spec_isqrt(l2);
    assert(is_sqrt(l2, root));
    if root > 40_000_000 {
        assert(root * root >= 40_000_001 * 40_000_001) by (nonlinear_arith)
            requires root >= 40_000_001;
        assert(40_000_001 * 40_000_001 > 3 * 400_000_000_000_000int) by (nonlinear_arith);
    }
}

/// The doubled face area of a face within the statistics bound stays small.
proof fn lemma_area2_small(d1: BaseVector, d2: BaseVector, cr: BaseVector)
    requires
        d1.bounded(2 * STATS_COORD_LIMIT as int),
        d2.bounded(2 * STATS_COORD_LIMIT as int),
        cr == d1.spec_cross(d2),
    ensures
        0 <= spec_isqrt(cr.spec_length2()) <= 1_400_000_000_000_000,
        cr.bounded(800_000_000_000_000),
{
    let c: int = 20_000_000;
    crate::scalar::lemma_mul_bounds(d1.y as int, d2.z as int, c, c);
    crate::scalar::lemma_mul_bounds(d1.z as int, d2.y as int, c, c);
    crate::scalar::lemma_mul_bounds(d1.z as int, d2.x as int, c, c);
    crate::scalar::lemma_mul_bounds(d1.x as int, d2.z as int, c, c);
    crate::scalar::lemma_mul_bounds(d1.x as int, d2.y as int, c, c);
    crate::scalar::lemma_mul_bounds(d1.y as int, d2.x as int, c, c);
    assert(20_000_000 * 20_000_000 == 400_000_000_000_000int) by (nonlinear_arith);
    crate::scalar::lemma_mul_bounds(cr.x as int, cr.x as int, 800_000_000_000_000,
        800_000_000_000_000);
    crate::scalar::lemma_mul_bounds(cr.y as int, cr.y as int, 800_000_000_000_000,
        800_000_000_000_000);
    crate::scalar::lemma_mul_bounds(cr.z as int, cr.z as int, 800_000_000_000_000,
        800_000_000_000_000);
    assert(800_000_000_000_000 * 800_000_000_000_000int
        == 640_000_000_000_000_000_000_000_000_000int) by (nonlinear_arith);
    let l2 = cr.spec_length2();
    assert(l2 >= 0) by {
        assert(cr.x * cr.x >= 0 && cr.y * cr.y >= 0 && cr.z * cr.z >= 0)
            by (nonlinear_arith);
    }
    lemma_isqrt_exists(l2);
    let root = spec_isqrt(l2);
    assert(is_sqrt(l2, root));
    if root > 1_400_000_000_000_000 {
        assert(root * root >= 1_400_000_000_000_001 * 1_400_000_000_000_001int)
            by (nonlinear_arith)
            requires root >= 1_400_000_000_000_001;
        assert(1_400_000_000_000_001 * 1_400_000_000_000_001int
            > 3 * 640_000_000_000_000_000_000_000_000_000int) by (nonlinear_arith);
    }
}

/// Removes degenerate triangles from a mesh. Not yet implemented: the
/// mesh is left unchanged.
pub fn remove_degenerate_faces(mesh: &mut MeshBuffer)
    ensures
        *final(mesh) == *old(mesh),
{
}

/// Removes unreferenced vertices from a mesh. Not yet implemented: the
/// mesh is left unchanged.
pub fn remove_unreferenced_vertices(mesh: &mut MeshBuffer)
    ensures
        *final(mesh) == *old(mesh),
{
}

/// Simplifies a mesh toward a target face ratio, given in `NORMAL_SCALE`
/// units, one unit standing for keeping every face. Decimation is not yet
/// implemented: the mesh is left unchanged for every ratio.
pub fn simplify_mesh(mesh: &mut MeshBuffer, target_ratio: i64)
    ensures
        *final(mesh) == *old(mesh),
{
    if target_ratio >= NORMAL_SCALE {
        return;
    }
}

/// Vertices `v` and `j` share one of the first `upto` faces, with `j`
/// another corner of it.
pub open spec fn spec_is_neighbor(faces: Seq<u32>, upto: int, v: int, j: int) -> bool
    decreases upto,
{
    if upto <= 0 {
        false
    } else {
        let f = crate::mesh_buffer::spec_face_of(faces, upto - 1);
        spec_is_neighbor(faces, upto - 1, v, j) || (f.0 == v && (j == f.1 || j == f.2)) || (
        f.1 == v && (j == f.2 || j == f.0)) || (f.2 == v && (j == f.0 || j == f.1))
    }
}

/// The neighbors of `v` below `upto`, in ascending order.
pub open spec fn spec_neighbors(faces: Seq<u32>, nf: int, v: int, upto: int) -> Seq<int>
    decreases upto,
{
    if upto <= 0 {
        Seq::empty()
    } else {
        let prev = spec_neighbors(faces, nf, v, upto - 1);
        if spec_is_neighbor(faces, nf, v, upto - 1) {
            prev.push(upto - 1)
        } else {
            prev
        }
    }
}

/// The entries of a sequence grow strictly.
pub open spec fn strictly_ascending(s: Seq<int>) -> bool {
    forall|a: int, b: int| 0 <= a < b < s.len() ==> s[a] < s[b]
}

/// One vertex's adjacency list, as a sequence of indices.
pub open spec fn adj_list(adj: Seq<Vec<u32>>, v: int) -> Seq<int> {
    (adj[v])@.map_values(|u: u32| u as int)
}

/// The ascending neighbor listing is strictly ascending, and holds exactly
/// the neighbors below `upto`.
proof fn lemma_spec_neighbors_props(faces: Seq<u32>, nf: int, v: int, upto: int)
    ensures
        strictly_ascending(spec_neighbors(faces, nf, v, upto)),
        forall|t: int|
            #[trigger] spec_neighbors(faces, nf, v, upto).contains(t) <==> (0 <= t < upto
                && spec_is_neighbor(faces, nf, v, t)),
        forall|a: int|
            0 <= a < spec_neighbors(faces, nf, v, upto).len()
                ==> #[trigger] spec_neighbors(faces, nf, v, upto)[a] < upto,
    decreases upto,
{
    if upto > 0 {
        lemma_spec_neighbors_props(faces, nf, v, upto - 1);
        let prev = spec_neighbors(faces, nf, v, upto - 1);
        let cur = spec_neighbors(faces, nf, v, upto);
        if spec_is_neighbor(faces, nf, v, upto - 1) {
            assert(cur == prev.push(upto - 1));
            assert forall|t: int| #[trigger] cur.contains(t) implies (0 <= t < upto
                && spec_is_neighbor(faces, nf, v, t)) by {
                let a = choose|a: int| 0 <= a < cur.len() && cur[a] == t;
                if a < prev.len() {
                    assert(prev[a] == t);
                    assert(prev.contains(t));
                }
            }
            assert forall|t: int|
                0 <= t < upto && spec_is_neighbor(faces, nf, v, t)
                implies #[trigger] cur.contains(t) by {
                if t < upto - 1 {
                    assert(prev.contains(t));
                    let a = choose|a: int| 0 <= a < prev.len() && prev[a] == t;
                    assert(cur[a] == t);
                } else {
                    assert(cur[cur.len() - 1] == t);
                }
            }
        } else {
            assert(cur == prev);
            assert forall|t: int|
                0 <= t < upto && spec_is_neighbor(faces, nf, v, t)
                implies #[trigger] cur.contains(t) by {
                assert(t != upto - 1);
            }
        }
    }
}

/// A strictly ascending sequence of values in `[0, hi)` has at most `hi`
/// entries.
proof fn lemma_ascending_len_bound(s: Seq<int>, hi: int)
    requires
        0 <= hi,
        strictly_ascending(s),
        forall|a: int| 0 <= a < s.len() ==> 0 <= #[trigger] s[a] < hi,
    ensures
        s.len() <= hi,
    decreases s.len(),
{
    if s.len() > 0 {
        let pre = s.drop_last();
        assert(strictly_ascending(pre)) by {
            assert forall|x: int, y: int| 0 <= x < y < pre.len() implies pre[x] < pre[y]
                by {
                assert(pre[x] == s[x] && pre[y] == s[y]);
            }
        }
        assert forall|a: int| 0 <= a < pre.len() implies 0 <= #[trigger] pre[a]
            < s[s.len() - 1] by {
            assert(pre[a] == s[a]);
        }
        lemma_ascending_len_bound(pre, s[s.len() - 1]);
        assert(0 <= s[s.len() - 1] < hi);
    }
}

/// Two strictly ascending sequences with the same members are equal.
proof fn lemma_ascending_unique(a: Seq<int>, b: Seq<int>)
    requires
        strictly_ascending(a),
        strictly_ascending(b),
        forall|t: int| #[trigger] a.contains(t) <==> #[trigger] b.contains(t),
    ensures
        a == b,
    decreases a.len(),
{
    if a.len() == 0 {
        if b.len() > 0 {
            assert(b.contains(b[0]));
            assert(a.contains(b[0]));
        }
        assert(a =~= b);
    } else {
        assert(a.contains(a[0]));
        assert(b.contains(a[0]));
        if b.len() == 0 {
            assert(!b.contains(a[0]));
        }
        let ka = choose|k: int| 0 <= k < b.len() && b[k] == a[0];
        assert(b.contains(b[0]));
        assert(a.contains(b[0]));
        let kb = choose|k: int| 0 <= k < a.len() && a[k] == b[0];
        assert(b[0] <= b[ka]);
        assert(a[0] <= a[kb]);
        assert(a[0] == b[0]);
        let ta = a.drop_first();
        let tb = b.drop_first();
        assert forall|t: int| #[trigger] ta.contains(t) implies tb.contains(t) by {
            let k = choose|k: int| 0 <= k < ta.len() && ta[k] == t;
            assert(a[k + 1] == t);
            assert(a.contains(t));
            assert(b.contains(t));
            let m = choose|m: int| 0 <= m < b.len() && b[m] == t;
            assert(a[0] < a[k + 1]);
            assert(m != 0);
            assert(tb[m - 1] == t);
        }
        assert forall|t: int| #[trigger] tb.contains(t) implies ta.contains(t) by {
            let k = choose|k: int| 0 <= k < tb.len() && tb[k] == t;
            assert(b[k + 1] == t);
            assert(b.contains(t));
            assert(a.contains(t));
            let m = choose|m: int| 0 <= m < a.len() && a[m] == t;
            assert(b[0] < b[k + 1]);
            assert(m != 0);
            assert(ta[m - 1] == t);
        }
        assert(strictly_ascending(ta)) by {
            assert forall|x: int, y: int| 0 <= x < y < ta.len() implies ta[x] < ta[y] by {
                assert(ta[x] == a[x + 1] && ta[y] == a[y + 1]);
            }
        }
        assert(strictly_ascending(tb)) by {
            assert forall|x: int, y: int| 0 <= x < y < tb.len() implies tb[x] < tb[y] by {
                assert(tb[x] == b[x + 1] && tb[y] == b[y + 1]);
            }
        }
        lemma_ascending_unique(ta, tb);
        assert(a.len() == b.len());
        assert forall|i: int| 0 <= i < a.len() implies a[i] == b[i] by {
            if i > 0 {
                assert(a[i] == ta[i - 1]);
                assert(b[i] == tb[i - 1]);
            }
        }
        assert(a =~= b);
    }
}

/// A neighbor of any vertex is itself a valid vertex index.
proof fn lemma_neighbor_in_range(m: MeshBuffer, upto: int, v: int, j: int)
    requires
        m.faces_valid(),
        0 <= upto <= m.spec_num_faces(),
        spec_is_neighbor(m.faces.data@, upto, v, j),
    ensures
        0 <= j < m.spec_num_vertices(),
    decreases upto,
{
    if upto > 0 {
        if spec_is_neighbor(m.faces.data@, upto - 1, v, j) {
            lemma_neighbor_in_range(m, upto - 1, v, j);
        } else {
            assert(crate::mesh_buffer::spec_face_of(m.faces.data@, upto - 1)
                == m.spec_face(upto - 1));
        }
    }
}

/// Componentwise sum of the positions at the first `upto` listed indices.
pub open spec fn spec_nbr_sum(verts: Seq<BaseVector>, nbrs: Seq<int>, upto: int) -> (
    int,
    int,
    int,
)
    decreases upto,
{
    if upto <= 0 {
        (0, 0, 0)
    } else {
        let prev = spec_nbr_sum(verts, nbrs, upto - 1);
        let p = verts[nbrs[upto - 1]];
        (prev.0 + p.x, prev.1 + p.y, prev.2 + p.z)
    }
}

/// One smoothed position: the vertex moved toward the floor mean of its
/// neighbors by `lambda`, in `NORMAL_SCALE` units; a vertex without
/// neighbors stays put.
pub open spec fn spec_smoothed_vertex(
    verts: Seq<BaseVector>,
    faces: Seq<u32>,
    nf: int,
    v: int,
    lambda: i64,
) -> BaseVector {
    let nbrs = spec_neighbors(faces, nf, v, verts.len() as int);
    if nbrs.len() == 0 {
        verts[v]
    } else {
        let s = spec_nbr_sum(verts, nbrs, nbrs.len() as int);
        let cnt = nbrs.len() as int;
        let cx = s.0 / cnt;
        let cy = s.1 / cnt;
        let cz = s.2 / cnt;
        let p = verts[v];
        BaseVector {
            x: (p.x + (cx - p.x) * lambda / (NORMAL_SCALE as int)) as i64,
            y: (p.y + (cy - p.y) * lambda / (NORMAL_SCALE as int)) as i64,
            z: (p.z + (cz - p.z) * lambda / (NORMAL_SCALE as int)) as i64,
        }
    }
}

/// One smoothing round over all vertices.
pub open spec fn spec_smooth_round(
    verts: Seq<BaseVector>,
    faces: Seq<u32>,
    nf: int,
    lambda: i64,
) -> Seq<BaseVector> {
    Seq::new(verts.len(), |v: int| spec_smoothed_vertex(verts, faces, nf, v, lambda))
}

/// `n` smoothing rounds.
pub open spec fn spec_smooth_iter(
    verts: Seq<BaseVector>,
    faces: Seq<u32>,
    nf: int,
    lambda: i64,
    n: nat,
) -> Seq<BaseVector>
    decreases n,
{
    if n == 0 {
        verts
    } else {
        spec_smooth_round(spec_smooth_iter(verts, faces, nf, lambda, (n - 1) as nat), faces,
            nf, lambda)
    }
}

/// Smooths a mesh in place by Laplacian averaging: for the given number of
/// rounds, every vertex moves toward the floor mean of its face neighbors
/// by `lambda`, given in `NORMAL_SCALE` units with one unit standing for
/// moving all the way; vertex normals are recomputed afterward.
pub fn smooth_mesh(mesh: &mut MeshBuffer, iterations: usize, lambda: i64)
    requires
        old(mesh).wf(),
        old(mesh).faces_valid(),
        old(mesh).vertices_bounded(STATS_COORD_LIMIT as int),
        old(mesh).spec_num_vertices() <= 1_000_000,
        old(mesh).spec_num_faces() <= 1_000_000,
        0 <= lambda <= NORMAL_SCALE,
        old(mesh).face_normals is Some ==> old(mesh).face_normals_bounded(),
    ensures
        final(mesh).wf(),
        final(mesh).faces == old(mesh).faces,
        final(mesh).spec_num_vertices() == old(mesh).spec_num_vertices(),
        ({
            let smoothed = spec_smooth_iter(old(mesh).spec_vertices_seq(),
                old(mesh).faces.data@, old(mesh).spec_num_faces(), lambda,
                iterations as nat);
            forall|v: int|
                0 <= v < smoothed.len() ==> final(mesh).spec_vertex(v) == smoothed[v]
        }),
        final(mesh).vertex_normals is Some,
        forall|v: int|
            0 <= v < final(mesh).spec_num_vertices()
                ==> final(mesh).spec_stored_vertex_normal(v)
                    == final(mesh).spec_vertex_normal_result(v),
        final(mesh).face_normals is Some,
        old(mesh).face_normals is Some ==> final(mesh).face_normals == old(
            mesh).face_normals,
        final(mesh).vertex_colors == old(mesh).vertex_colors,
        final(mesh).face_colors == old(mesh).face_colors,
        final(mesh).texture_coords == old(mesh).texture_coords,
        final(mesh).face_materials == old(mesh).face_materials,
{
    let nv = mesh.num_vertices();
    let nf = mesh.num_faces();
    let ghost faces_seq = mesh.faces.data@;
    let ghost orig_verts = mesh.spec_vertices_seq();
    // adjacency: per vertex, the ascending list of its distinct neighbors
    let mut adj: Vec<Vec<u32>> = Vec::new();
    let mut v0: usize = 0;
    while v0 < nv
        invariant
            v0 <= nv,
            adj@.len() == v0,
            forall|w: int| 0 <= w < v0 ==> (#[trigger] adj@[w])@.len() == 0,
        decreases nv - v0,
    {
        adj.push(Vec::new());
        v0 = v0 + 1;
    }
    let mut fi: usize = 0;
    while fi < nf
        invariant
            mesh.wf(),
            mesh.faces_valid(),
            faces_seq == mesh.faces.data@,
            nv == mesh.spec_num_vertices(),
            nf == mesh.spec_num_faces(),
            fi <= nf,
            adj@.len() == nv,
            forall|w: int, t: int|
                0 <= w < nv ==> (#[trigger] adj_list(adj@, w).contains(t) <==> spec_is_neighbor(faces_seq, fi as int, w, t)),
            forall|w: int|
                0 <= w < nv ==> strictly_ascending(#[trigger] adj_list(adj@, w)),
            forall|w: int, a: int|
                0 <= w < nv && 0 <= a < (adj@[w])@.len()
                    ==> ((#[trigger] (adj@[w])@[a]) as int) < nv,
        decreases nf - fi,
    {
        let f = mesh.get_face(fi).unwrap();
        proof {
            assert(crate::mesh_buffer::spec_face_of(faces_seq, fi as int)
                == mesh.spec_face(fi as int));
        }
        insert_neighbor(&mut adj, f[0] as usize, f[1], Ghost(nv as int));
        insert_neighbor(&mut adj, f[0] as usize, f[2], Ghost(nv as int));
        insert_neighbor(&mut adj, f[1] as usize, f[2], Ghost(nv as int));
        insert_neighbor(&mut adj, f[1] as usize, f[0], Ghost(nv as int));
        insert_neighbor(&mut adj, f[2] as usize, f[0], Ghost(nv as int));
        insert_neighbor(&mut adj, f[2] as usize, f[1], Ghost(nv as int));
        proof {
            assert forall|w: int, t: int| 0 <= w < nv
                implies (#[trigger] adj_list(adj@, w).contains(t) <==> spec_is_neighbor(
                    faces_seq, fi + 1, w, t)) by {
            }
        }
        fi = fi + 1;
    }
    proof {
        assert forall|w: int| 0 <= w < nv implies #[trigger] adj_list(adj@, w)
            == spec_neighbors(faces_seq, nf as int, w, nv as int) by {
            lemma_spec_neighbors_props(faces_seq, nf as int, w, nv as int);
            assert forall|t: int| adj_list(adj@, w).contains(t)
                implies spec_neighbors(faces_seq, nf as int, w, nv as int).contains(t) by {
                let a = choose|a: int|
                    0 <= a < adj_list(adj@, w).len() && adj_list(adj@, w)[a] == t;
                assert(0 <= t < nv);
            }
            lemma_ascending_unique(adj_list(adj@, w),
                spec_neighbors(faces_seq, nf as int, w, nv as int));
        }
    }
    let mut current: Vec<BaseVector> = mesh.vertices();
    let mut it: usize = 0;
    while it < iterations
        invariant
            mesh.wf(),
            mesh.faces_valid(),
            faces_seq == mesh.faces.data@,
            nv == mesh.spec_num_vertices(),
            nf == mesh.spec_num_faces(),
            orig_verts == mesh.spec_vertices_seq(),
            0 <= lambda <= NORMAL_SCALE,
            adj@.len() == nv,
            forall|w: int|
                0 <= w < nv ==> #[trigger] adj_list(adj@, w) == spec_neighbors(faces_seq,
                    nf as int, w, nv as int),
            forall|w: int, a: int|
                0 <= w < nv && 0 <= a < (adj@[w])@.len()
                    ==> ((#[trigger] (adj@[w])@[a]) as int) < nv,
            it <= iterations,
            nv <= 1_000_000,
            current@.len() == nv,
            current@ == spec_smooth_iter(orig_verts, faces_seq, nf as int, lambda,
                it as nat),
            forall|w: int|
                0 <= w < nv ==> (#[trigger] current@[w]).bounded(STATS_COORD_LIMIT as int),
        decreases iterations - it,
    {
        let mut next: Vec<BaseVector> = Vec::new();
        let mut v: usize = 0;
        while v < nv
            invariant
                0 <= lambda <= NORMAL_SCALE,
                adj@.len() == nv,
                forall|w: int|
                    0 <= w < nv ==> #[trigger] adj_list(adj@, w) == spec_neighbors(
                        faces_seq, nf as int, w, nv as int),
                forall|w: int, a: int|
                    0 <= w < nv && 0 <= a < (adj@[w])@.len()
                        ==> ((#[trigger] (adj@[w])@[a]) as int) < nv,
                v <= nv,
                current@.len() == nv,
                nv <= 1_000_000,
                forall|w: int|
                    0 <= w < nv ==> (#[trigger] current@[w]).bounded(
                        STATS_COORD_LIMIT as int),
                next@.len() == v,
                forall|w: int|
                    0 <= w < v ==> #[trigger] next@[w] == spec_smoothed_vertex(current@,
                        faces_seq, nf as int, w, lambda),
                forall|w: int|
                    0 <= w < v ==> (#[trigger] next@[w]).bounded(STATS_COORD_LIMIT as int),
            decreases nv - v,
        {
            let deg = adj[v].len();
            proof {
                lemma_spec_neighbors_props(faces_seq, nf as int, v as int, nv as int);
                assert(strictly_ascending(adj_list(adj@, v as int)));
                lemma_ascending_len_bound(adj_list(adj@, v as int), nv as int);
            }
            if deg == 0 {
                next.push(current[v]);
            } else {
                let ghost nbrs = spec_neighbors(faces_seq, nf as int, v as int, nv as int);
                let mut sx: i64 = 0;
                let mut sy: i64 = 0;
                let mut sz: i64 = 0;
                let mut k: usize = 0;
                while k < deg
                    invariant
                        adj@.len() == nv,
                        v < nv,
                        deg == (adj@[v as int])@.len(),
                        nbrs == adj_list(adj@, v as int),
                        forall|a: int|
                            0 <= a < deg ==> ((adj@[v as int])@[a] as int) < nv,
                        current@.len() == nv,
                        nv <= 1_000_000,
                        forall|w: int|
                            0 <= w < nv ==> (#[trigger] current@[w]).bounded(
                                STATS_COORD_LIMIT as int),
                        k <= deg,
                        deg <= 1_000_000,
                        (sx as int, sy as int, sz as int) == spec_nbr_sum(current@, nbrs,
                            k as int),
                        -(10_000_000 * (k as int)) <= sx <= 10_000_000 * (k as int),
                        -(10_000_000 * (k as int)) <= sy <= 10_000_000 * (k as int),
                        -(10_000_000 * (k as int)) <= sz <= 10_000_000 * (k as int),
                    decreases deg - k,
                {
                    let idx = adj[v][k];
                    let p = current[idx as usize];
                    proof {
                        assert(nbrs[k as int] == idx as int);
                        assert(10_000_000int * (k as int + 1) == 10_000_000int * (k as int)
                            + 10_000_000) by (nonlinear_arith);
                        assert(10_000_000int * (k as int) <= 10_000_000_000_000int)
                            by (nonlinear_arith)
                            requires k as int <= 1_000_000;
                    }
                    sx = sx + p.x;
                    sy = sy + p.y;
                    sz = sz + p.z;
                    k = k + 1;
                }
                proof {
                    assert(10_000_000int * (deg as int) <= 10_000_000_000_000int)
                        by (nonlinear_arith)
                        requires deg as int <= 1_000_000;
                }
                let cx = crate::scalar::div_floor_i64(sx, deg as i64);
                let cy = crate::scalar::div_floor_i64(sy, deg as i64);
                let cz = crate::scalar::div_floor_i64(sz, deg as i64);
                let p = current[v];
                proof {
                    crate::scalar::lemma_div_bound_by(sx as int, deg as int, 10_000_000);
                    crate::scalar::lemma_div_bound_by(sy as int, deg as int, 10_000_000);
                    crate::scalar::lemma_div_bound_by(sz as int, deg as int, 10_000_000);
                    assert(10_000_000int * (deg as int) >= 10_000_000int * 1)
                        by (nonlinear_arith)
                        requires deg as int >= 1;
                    lemma_lambda_step(cx - p.x as int, lambda as int);
                    lemma_lambda_step(cy - p.y as int, lambda as int);
                    lemma_lambda_step(cz - p.z as int, lambda as int);
                }
                let ox = crate::scalar::div_floor_i64((cx - p.x) * lambda, NORMAL_SCALE);
                let oy = crate::scalar::div_floor_i64((cy - p.y) * lambda, NORMAL_SCALE);
                let oz = crate::scalar::div_floor_i64((cz - p.z) * lambda, NORMAL_SCALE);
                next.push(BaseVector { x: p.x + ox, y: p.y + oy, z: p.z + oz });
            }
            v = v + 1;
        }
        proof {
            assert(next@ =~= spec_smooth_round(current@, faces_seq, nf as int, lambda));
        }
        current = next;
        it = it + 1;
    }
    proof {
        assert(3 * current@.len() <= usize::MAX);
    }
    let ghost smoothed = current@;
    mesh.set_vertices(current);
    proof {
        assert forall|w: int| 0 <= w < mesh.spec_num_vertices()
            implies (#[trigger] mesh.spec_vertex(w)).bounded(
                crate::vector::COORD_LIMIT as int) by {
            assert(mesh.spec_vertex(w) == smoothed[w]);
            assert(smoothed[w].bounded(STATS_COORD_LIMIT as int));
        }
        assert forall|i: int| 0 <= i < mesh.spec_num_faces() implies {
            let f = #[trigger] mesh.spec_face(i);
            f.0 < mesh.spec_num_vertices() && f.1 < mesh.spec_num_vertices() && f.2
                < mesh.spec_num_vertices()
        } by {
            assert(mesh.spec_face(i) == old(mesh).spec_face(i));
            assert(old(mesh).spec_face(i).0 < old(mesh).spec_num_vertices());
        }
        assert forall|i: int| 0 <= i < mesh.spec_num_faces()
            implies (#[trigger] mesh.spec_stored_face_normal(i)).bounded(
                NORMAL_SCALE as int) || !(mesh.face_normals is Some) by {
            if mesh.face_normals is Some {
                assert(mesh.spec_stored_face_normal(i)
                    == old(mesh).spec_stored_face_normal(i));
            }
        }
    }
    mesh.compute_vertex_normals();
}

/// Moving by a `lambda` fraction never overshoots: the step stays between
/// zero and the full offset, and the products stay in range.
proof fn lemma_lambda_step(d: int, lambda: int)
    requires
        -20_000_000 <= d <= 20_000_000,
        0 <= lambda <= NORMAL_SCALE as int,
    ensures
        -30_000_000_000_000 <= d * lambda <= 30_000_000_000_000,
        d >= 0 ==> 0 <= d * lambda / (NORMAL_SCALE as int) <= d,
        d < 0 ==> d <= d * lambda / (NORMAL_SCALE as int) <= 0,
{
    crate::scalar::lemma_mul_bounds(d, lambda, 20_000_000, 1024);
    let s = NORMAL_SCALE as int;
    if d >= 0 {
        assert(0 <= d * lambda <= d * s) by (nonlinear_arith)
            requires d >= 0 && 0 <= lambda <= s;
        crate::scalar::lemma_div_bound_by(d * lambda, s, d);
        crate::scalar::lemma_div_shrinks(d * lambda, s);
    } else {
        assert(d * s <= d * lambda <= 0) by (nonlinear_arith)
            requires d < 0 && 0 <= lambda <= s;
        crate::scalar::lemma_div_bound_by(d * lambda, s, -d);
        crate::scalar::lemma_div_shrinks(d * lambda, s);
    }
}

/// Inserts a neighbor into one vertex's ascending list, keeping it
/// ascending and duplicate-free.
fn insert_neighbor(adj: &mut Vec<Vec<u32>>, v: usize, x: u32, Ghost(bound): Ghost<int>)
    requires
        v < old(adj)@.len(),
        (x as int) < bound,
        forall|w: int|
            0 <= w < old(adj)@.len() ==> strictly_ascending(#[trigger] adj_list(
                old(adj)@, w)),
        forall|w: int, a: int|
            0 <= w < old(adj)@.len() && 0 <= a < (old(adj)@[w])@.len()
                ==> ((#[trigger] (old(adj)@[w])@[a]) as int) < bound,
    ensures
        forall|w: int, a: int|
            0 <= w < final(adj)@.len() && 0 <= a < (final(adj)@[w])@.len()
                ==> ((#[trigger] (final(adj)@[w])@[a]) as int) < bound,
        final(adj)@.len() == old(adj)@.len(),
        forall|w: int|
            0 <= w < old(adj)@.len() && w != v ==> #[trigger] adj_list(final(adj)@, w)
                == adj_list(old(adj)@, w),
        forall|w: int|
            0 <= w < old(adj)@.len() ==> strictly_ascending(#[trigger] adj_list(
                final(adj)@, w)),
        forall|t: int|
            #[trigger] adj_list(final(adj)@, v as int).contains(t) <==> (adj_list(
                old(adj)@, v as int).contains(t) || t == x as int),
{
    let len = adj[v].len();
    let ghost before = adj_list(old(adj)@, v as int);
    let mut pos: usize = 0;
    while pos < len && adj[v][pos] < x
        invariant
            v < adj@.len(),
            adj == old(adj),
            len == (adj@[v as int])@.len(),
            before == adj_list(adj@, v as int),
            strictly_ascending(before),
            pos <= len,
            forall|a: int| 0 <= a < pos ==> before[a] < x as int,
        decreases len - pos,
    {
        pos = pos + 1;
    }
    if pos < len {
        let cur = adj[v][pos];
        if cur == x {
            proof {
                assert(before[pos as int] == x as int);
                assert(before.contains(x as int));
                assert forall|w: int| 0 <= w < adj@.len() && w != v
                    implies #[trigger] adj_list(adj@, w) == adj_list(old(adj)@, w) by {
                    assert(adj@[w] == old(adj)@[w]);
                }
            }
            return;
        }
    }
    adj[v].insert(pos, x);
    proof {
        let after = adj_list(adj@, v as int);
        assert(after =~= before.insert(pos as int, x as int));
        assert forall|a: int, b: int| 0 <= a < b < after.len() implies after[a] < after[b]
            by {
            if b < pos {
                assert(after[a] == before[a] && after[b] == before[b]);
            } else if a > pos {
                assert(after[a] == before[a - 1] && after[b] == before[b - 1]);
            } else if a == pos {
                assert(after[a] == x as int && after[b] == before[b - 1]);
                assert(before[pos as int] > x as int || (pos as int) >= before.len());
                if (pos as int) < before.len() {
                    assert(before[pos as int] <= before[b - 1]);
                }
            } else if b == pos {
                assert(after[a] == before[a] && after[b] == x as int);
                assert(before[a] < x as int);
            } else {
                assert(a < pos && b > pos);
                assert(after[a] == before[a] && after[b] == before[b - 1]);
                assert(before[a] < x as int);
                if (pos as int) < before.len() {
                    assert(before[pos as int] <= before[b - 1]);
                    assert((x as int) < before[pos as int] || (x as int) < before[b - 1]);
                }
                assert(b - 1 >= pos);
            }
        }
        assert forall|t: int| after.contains(t) implies (before.contains(t) || t
            == x as int) by {
            let a = choose|a: int| 0 <= a < after.len() && after[a] == t;
            if a < pos {
                assert(before[a] == t);
            } else if a > pos {
                assert(before[a - 1] == t);
            }
        }
        assert forall|t: int| (before.contains(t) || t == x as int)
            implies after.contains(t) by {
            if t == x as int {
                assert(after[pos as int] == t);
            } else {
                let a = choose|a: int| 0 <= a < before.len() && before[a] == t;
                if a < pos {
                    assert(after[a] == t);
                } else {
                    assert(after[a + 1] == t);
                }
            }
        }
        assert forall|w: int| 0 <= w < adj@.len()
            implies strictly_ascending(#[trigger] adj_list(adj@, w)) by {
            if w != v {
                assert(adj_list(adj@, w) == adj_list(old(adj)@, w));
            }
        }
    }
    proof {
        assert forall|w: int| 0 <= w < adj@.len() && w != v
            implies #[trigger] adj_list(adj@, w) == adj_list(old(adj)@, w) by {
            assert(adj@[w] == old(adj)@[w]);
        }
        assert forall|w: int, a: int|
            0 <= w < adj@.len() && 0 <= a < (adj@[w])@.len()
            implies ((#[trigger] (adj@[w])@[a]) as int) < bound by {
            if w == v {
                let before_v = (old(adj)@[v as int])@;
                assert((adj@[w])@ =~= before_v.insert(pos as int, x));
                if a < pos {
                    assert((adj@[w])@[a] == before_v[a]);
                } else if a > pos {
                    assert((adj@[w])@[a] == before_v[a - 1]);
                }
            } else {
                assert(adj@[w] == old(adj)@[w]);
            }
        }
    }
}

} // verus!
