//! Marching Cubes isosurface extraction over the sparse voxel grid.
//!
//! Every non-empty cell of the grid is visited in insertion order. The
//! signed-distance field is sampled at the cell's eight corners, cached per
//! corner coordinate, and the cube's lookup-table row yields the triangles,
//! with crossing vertices deduplicated per cell edge.

use vstd::prelude::*;
use std::collections::HashMap;
use crate::scalar::{div_floor_i64, spec_isqrt, NORMAL_SCALE};
use crate::vector::BaseVector;
use crate::point_buffer::PointBuffer;
use crate::mesh_buffer::MeshBuffer;
use crate::search_tree::{SearchTree, knn_prefix, lemma_knn_prefix_len};
use crate::hash_grid::{
    HashGrid, spec_pack, spec_unpack, coord_in_range, lemma_unpack, PACK_BASE, GRID_COORD_LIMIT,
    VOXEL_LIMIT,
};
use crate::mc_table::{MCTable, edge_mask_seq, tri_row_seq};
use crate::reconstruction::ReconstructionError;

verus! {

/// The corner offsets of a cell, bottom face counter-clockwise, then the
/// top face directly above.
pub open spec fn spec_corner_offsets() -> Seq<(int, int, int)> {
    seq![
        (0int, 0int, 0int),
        (1int, 0int, 0int),
        (1int, 1int, 0int),
        (0int, 1int, 0int),
        (0int, 0int, 1int),
        (1int, 0int, 1int),
        (1int, 1int, 1int),
        (0int, 1int, 1int),
    ]
}

/// The corner pair each of the twelve cell edges joins.
pub open spec fn spec_edge_pairs() -> Seq<(int, int)> {
    seq![
        (0int, 1int),
        (1int, 2int),
        (2int, 3int),
        (3int, 0int),
        (4int, 5int),
        (5int, 6int),
        (6int, 7int),
        (7int, 4int),
        (0int, 4int),
        (1int, 5int),
        (2int, 6int),
        (3int, 7int),
    ]
}

/// The coordinate of corner `i` of the cell at `c`.
pub open spec fn spec_corner_coord(c: (int, int, int), i: int) -> (int, int, int) {
    let off = spec_corner_offsets()[i];
    (c.0 + off.0, c.1 + off.1, c.2 + off.2)
}

/// The world position of the minimum corner of the cell at `cc`.
pub open spec fn spec_corner_world(origin: BaseVector, s: i64, cc: (int, int, int))
    -> BaseVector {
    BaseVector {
        x: (origin.x + cc.0 * s) as i64,
        y: (origin.y + cc.1 * s) as i64,
        z: (origin.z + cc.2 * s) as i64,
    }
}

/// Sum of the rounded distances from `w` to the points at the first `upto`
/// indices of `order`.
pub open spec fn spec_dist_sum(
    pts: Seq<BaseVector>,
    w: BaseVector,
    order: Seq<int>,
    upto: int,
) -> int
    decreases upto,
{
    if upto <= 0 {
        0
    } else {
        spec_dist_sum(pts, w, order, upto - 1) + spec_isqrt(
            pts[order[upto - 1]].spec_sub(w).spec_length2())
    }
}

/// The signed-distance field at the corner coordinate `cc`: the rounded
/// distance to the nearest point, negative on the inner side. The sign
/// comes from the nearest point's normal when one is attached, else from
/// comparing the nearest distance with the mean neighbor distance.
pub open spec fn spec_field(
    pb: PointBuffer,
    origin: BaseVector,
    s: i64,
    kd: int,
    cc: (int, int, int),
) -> int {
    let pts = pb.spec_points_seq();
    let w = spec_corner_world(origin, s, cc);
    let order = knn_prefix(pts, w, kd as nat);
    if order.len() == 0 {
        1
    } else {
        let nearest_idx = order[0];
        let nearest = pts[nearest_idx];
        let dist = spec_isqrt(nearest.spec_sub(w).spec_length2());
        let mean = spec_dist_sum(pts, w, order, order.len() as int) / (order.len() as int);
        let sign: int = if pb.normals is Some {
            let n = pb.spec_normal(nearest_idx);
            let to_point = w.spec_sub(nearest);
            if n.x * to_point.x + n.y * to_point.y + n.z * to_point.z >= 0 {
                1
            } else {
                -1
            }
        } else {
            if dist > mean {
                1
            } else {
                -1
            }
        };
        sign * dist
    }
}

/// The 8-bit cube index of the cell at `c`: bit `i` set exactly when the
/// field at corner `i` is negative.
pub open spec fn spec_cube_index(
    pb: PointBuffer,
    origin: BaseVector,
    s: i64,
    kd: int,
    c: (int, int, int),
) -> int {
    (if spec_field(pb, origin, s, kd, spec_corner_coord(c, 0)) < 0 {
        1int
    } else {
        0
    }) + (if spec_field(pb, origin, s, kd, spec_corner_coord(c, 1)) < 0 {
        2int
    } else {
        0
    }) + (if spec_field(pb, origin, s, kd, spec_corner_coord(c, 2)) < 0 {
        4int
    } else {
        0
    }) + (if spec_field(pb, origin, s, kd, spec_corner_coord(c, 3)) < 0 {
        8int
    } else {
        0
    }) + (if spec_field(pb, origin, s, kd, spec_corner_coord(c, 4)) < 0 {
        16int
    } else {
        0
    }) + (if spec_field(pb, origin, s, kd, spec_corner_coord(c, 5)) < 0 {
        32int
    } else {
        0
    }) + (if spec_field(pb, origin, s, kd, spec_corner_coord(c, 6)) < 0 {
        64int
    } else {
        0
    }) + (if spec_field(pb, origin, s, kd, spec_corner_coord(c, 7)) < 0 {
        128int
    } else {
        0
    })
}

/// The crossing point of an edge with endpoint positions `p1`, `p2` and
/// field values `d1`, `d2`: an endpoint when a value vanishes or the
/// values agree in sign or size, else the linear interpolation at
/// `d1 / (d1 - d2)`, rounded down per coordinate.
pub open spec fn spec_interp(p1: BaseVector, p2: BaseVector, d1: int, d2: int) -> BaseVector {
    if d1 == 0 {
        p1
    } else if d2 == 0 {
        p2
    } else if d1 == d2 {
        p1
    } else if (d1 < 0) == (d2 < 0) {
        p1
    } else {
        let den = d1 - d2;
        BaseVector {
            x: (p1.x + spec_frac((p2.x - p1.x) * d1, den)) as i64,
            y: (p1.y + spec_frac((p2.y - p1.y) * d1, den)) as i64,
            z: (p1.z + spec_frac((p2.z - p1.z) * d1, den)) as i64,
        }
    }
}

/// Floor division with the divisor's sign moved into the numerator.
pub open spec fn spec_frac(num: int, den: int) -> int {
    if den > 0 {
        num / den
    } else {
        (-num) / (-den)
    }
}

/// The twelve edge crossing points of the cell at `c`: one per edge that
/// the cube index's row in the edge table marks as crossed; the rest stay
/// at the origin of coordinates.
pub open spec fn spec_edge_vertices(
    pb: PointBuffer,
    origin: BaseVector,
    s: i64,
    kd: int,
    c: (int, int, int),
) -> Seq<BaseVector> {
    let ci = spec_cube_index(pb, origin, s, kd, c);
    let mask = edge_mask_seq()[ci];
    Seq::new(12, |e: int|
        if mask & (1u16 << e) != 0 {
            let pair = spec_edge_pairs()[e];
            let ca = spec_corner_coord(c, pair.0);
            let cb = spec_corner_coord(c, pair.1);
            spec_interp(
                spec_corner_world(origin, s, ca),
                spec_corner_world(origin, s, cb),
                spec_field(pb, origin, s, kd, ca),
                spec_field(pb, origin, s, kd, cb),
            )
        } else {
            BaseVector { x: 0, y: 0, z: 0 }
        })
}

/// The edge identifiers packed in a triangle row, in order, cut at the
/// first nibble of twelve or more, reading at most `left` nibbles.
pub open spec fn spec_decode_row(w: int, left: nat) -> Seq<int>
    decreases left,
{
    if left == 0 {
        Seq::empty()
    } else {
        let nib = w % 16;
        if nib >= 12 {
            Seq::empty()
        } else {
            seq![nib] + spec_decode_row(w / 16, (left - 1) as nat)
        }
    }
}

/// Looks up or appends the crossing vertex for the edge key `vkey`:
/// the vertex list, the dedup map, and the vertex index to use.
pub open spec fn spec_add_vertex(
    verts: Seq<BaseVector>,
    vmap: Map<int, int>,
    vkey: int,
    pos: BaseVector,
) -> (Seq<BaseVector>, Map<int, int>, int) {
    if vmap.contains_key(vkey) {
        (verts, vmap, vmap[vkey])
    } else {
        (verts.push(pos), vmap.insert(vkey, verts.len() as int), verts.len() as int)
    }
}

/// Emits the triangles of one cell: for every triple of edge identifiers,
/// resolves each edge to a vertex, deduplicated per cell and edge, and
/// appends one face.
pub open spec fn spec_emit_triangles(
    verts: Seq<BaseVector>,
    faces: Seq<int>,
    vmap: Map<int, int>,
    ckey: int,
    ev: Seq<BaseVector>,
    nibs: Seq<int>,
) -> (Seq<BaseVector>, Seq<int>, Map<int, int>)
    decreases nibs.len(),
{
    if nibs.len() < 3 {
        (verts, faces, vmap)
    } else {
        let e0 = nibs[0];
        let e1 = nibs[1];
        let e2 = nibs[2];
        let r0 = spec_add_vertex(verts, vmap, ckey * 16 + e0, ev[e0]);
        let r1 = spec_add_vertex(r0.0, r0.1, ckey * 16 + e1, ev[e1]);
        let r2 = spec_add_vertex(r1.0, r1.1, ckey * 16 + e2, ev[e2]);
        let faces2 = faces.push(r0.2).push(r1.2).push(r2.2);
        spec_emit_triangles(r2.0, faces2, r2.1, ckey, ev, nibs.skip(3))
    }
}

/// Processes one cell: looks up the cube index's rows and emits its
/// triangles; a cell wholly inside or outside, or with an empty edge
/// mask, changes nothing.
pub open spec fn spec_cell_step(
    pb: PointBuffer,
    origin: BaseVector,
    s: i64,
    kd: int,
    verts: Seq<BaseVector>,
    faces: Seq<int>,
    vmap: Map<int, int>,
    c: (int, int, int),
) -> (Seq<BaseVector>, Seq<int>, Map<int, int>) {
    let ci = spec_cube_index(pb, origin, s, kd, c);
    if ci == 0 || ci == 255 {
        (verts, faces, vmap)
    } else if edge_mask_seq()[ci] == 0 {
        (verts, faces, vmap)
    } else {
        let ev = spec_edge_vertices(pb, origin, s, kd, c);
        let nibs = spec_decode_row(tri_row_seq()[ci] as int, 15);
        spec_emit_triangles(verts, faces, vmap, spec_pack(c), ev, nibs)
    }
}

/// The extraction state after the first `upto` cells.
pub open spec fn spec_extract(
    pb: PointBuffer,
    origin: BaseVector,
    s: i64,
    kd: int,
    keys: Seq<u64>,
    upto: int,
) -> (Seq<BaseVector>, Seq<int>, Map<int, int>)
    decreases upto,
{
    if upto <= 0 {
        (Seq::empty(), Seq::empty(), Map::empty())
    } else {
        let st = spec_extract(pb, origin, s, kd, keys, upto - 1);
        spec_cell_step(pb, origin, s, kd, st.0, st.1, st.2, spec_unpack(keys[upto - 1] as int))
    }
}

/// The marching cubes extractor: the grid, the point set with its
/// normals, a search index over the same points, and the per-corner
/// field cache.
pub struct MarchingCubes<'a> {
    /// The voxel grid to walk.
    pub grid: &'a HashGrid,
    /// The point set the field is measured against.
    pub points: &'a PointBuffer,
    /// Search index over the same points.
    pub tree: SearchTree,
    /// Number of neighbors for the field evaluation.
    pub kd: usize,
    /// Cache of field values, keyed by packed corner coordinate.
    pub distance_cache: HashMap<u64, i64>,
}

impl<'a> MarchingCubes<'a> {
    /// The extractor's parts agree: the index holds exactly the buffer's
    /// points, and every cached value is the field value of its corner.
    pub open spec fn wf(self) -> bool {
        &&& self.points.wf()
        &&& self.points.points_bounded(GRID_COORD_LIMIT as int)
        &&& self.points.spec_num_points() <= 1_000_000
        &&& self.points.normals matches Some(nch) ==> forall|i: int|
            0 <= i < self.points.spec_num_points()
                ==> (#[trigger] self.points.spec_normal(i)).bounded(1_000_000)
        &&& self.tree.wf()
        &&& self.tree.points@ == self.points.spec_points_seq()
        &&& self.grid.wf()
        &&& 1 <= self.kd
        &&& forall|k: u64|
            #[trigger] self.distance_cache@.contains_key(k) ==> 0 <= k
                < 0x1000_0000_0000_0000 && coord_in_range(spec_unpack(k as int))
                && self.distance_cache@[k] as int == spec_field(*self.points,
                self.grid.origin, self.grid.voxel_size, self.kd as int, spec_unpack(k as int))
                && -10_000_000 <= self.distance_cache@[k] <= 10_000_000
    }

    /// Creates a new extractor over a grid and point set, with an empty
    /// field cache.
    pub fn new(grid: &'a HashGrid, points: &'a PointBuffer, kd: usize) -> (r: Self)
        requires
            points.wf(),
            points.points_bounded(GRID_COORD_LIMIT as int),
            points.spec_num_points() <= 1_000_000,
            points.normals matches Some(nch) ==> forall|i: int|
                0 <= i < points.spec_num_points()
                    ==> (#[trigger] points.spec_normal(i)).bounded(1_000_000),
            grid.wf(),
            1 <= kd,
        ensures
            r.wf(),
            r.grid == grid,
            r.points == points,
            r.kd == kd,
            r.distance_cache@ == Map::<u64, i64>::empty(),
    {
        proof {
            assert forall|i: int| 0 <= i < points.spec_points_seq().len()
                implies (#[trigger] points.spec_points_seq()[i]).bounded(
                    crate::vector::COORD_LIMIT as int) by {
                assert(points.spec_points_seq()[i] == points.spec_point(i));
            }
        }
        let tree = SearchTree::new(points);
        MarchingCubes { grid, points, tree, kd, distance_cache: HashMap::new() }
    }

    /// Evaluates the signed-distance field at a corner coordinate, serving
    /// repeated corners from the cache.
    pub fn compute_distance(&mut self, cc: (i64, i64, i64)) -> (r: i64)
        requires
            old(self).wf(),
            coord_in_range((cc.0 as int, cc.1 as int, cc.2 as int)),
            cc.0 * old(self).grid.voxel_size <= 3_000_000,
            cc.1 * old(self).grid.voxel_size <= 3_000_000,
            cc.2 * old(self).grid.voxel_size <= 3_000_000,
        ensures
            final(self).wf(),
            final(self).grid == old(self).grid,
            final(self).points == old(self).points,
            final(self).tree == old(self).tree,
            final(self).kd == old(self).kd,
            r as int == spec_field(*old(self).points, old(self).grid.origin,
                old(self).grid.voxel_size, old(self).kd as int,
                (cc.0 as int, cc.1 as int, cc.2 as int)),
            -10_000_000 <= r <= 10_000_000,
    {
        let ghost pb = *self.points;
        let ghost origin = self.grid.origin;
        let ghost s = self.grid.voxel_size;
        let ghost ccc = (cc.0 as int, cc.1 as int, cc.2 as int);
        proof {
            crate::hash_grid::lemma_pack_fits(cc.0 as int, cc.1 as int, cc.2 as int);
        }
        let key: u64 = ((cc.0 as u64) * (PACK_BASE as u64) + (cc.1 as u64))
            * (PACK_BASE as u64) + (cc.2 as u64);
        proof {
            assert(key as int == spec_pack(ccc));
            lemma_unpack(key as int);
            crate::hash_grid::lemma_pack_injective(spec_unpack(key as int), ccc);
        }
        match self.distance_cache.get(&key) {
            Some(d_ref) => {
                let d = *d_ref;
                return d;
            },
            None => {},
        }
        let w = self.grid.cell_corner(cc);
        proof {
            lemma_corner_world_bounded(origin, s, ccc);
            assert(w == spec_corner_world(origin, s, ccc));
        }
        let idxs = self.tree.knn_indices(&w, self.kd);
        let ghost pts = pb.spec_points_seq();
        let ghost order = knn_prefix(pts, w, self.kd as nat);
        proof {
            lemma_knn_prefix_len(pts, w, self.kd as nat);
        }
        let d: i64;
        if idxs.len() == 0 {
            d = 1;
        } else {
            let n = idxs.len();
            let mut total: i64 = 0;
            let mut a: usize = 0;
            while a < n
                invariant
                    self.wf(),
                    pb == *self.points,
                    pts == pb.spec_points_seq(),
                    order == knn_prefix(pts, w, self.kd as nat),
                    w.bounded(5_100_000),
                    n == idxs@.len(),
                    n <= pts.len(),
                    forall|t: int| 0 <= t < n ==> #[trigger] idxs@[t] == order[t],
                    forall|t: int| 0 <= t < n ==> #[trigger] idxs@[t] < pts.len(),
                    a <= n,
                    total == spec_dist_sum(pts, w, order, a as int),
                    0 <= total <= 10_000_000 * (a as int),
                decreases n - a,
            {
                let id = idxs[a];
                let p = self.tree.points[id];
                proof {
                    assert(p.bounded(crate::vector::COORD_LIMIT as int));
                    lemma_dist_small(p, w);
                }
                let dist = p.distance(&w);
                total = total + dist;
                a = a + 1;
            }
            proof {
                assert(10_000_000 * (n as int) <= 10_000_000_000_000_000) by (nonlinear_arith)
                    requires n as int <= 1_000_000_000;
            }
            let mean = div_floor_i64(total, n as i64);
            let nearest_idx = idxs[0];
            let nearest = self.tree.points[nearest_idx];
            proof {
                lemma_dist_small(nearest, w);
            }
            let dist = nearest.distance(&w);
            let sign: i64;
            match self.points.get_normal(nearest_idx) {
                Some(nrm) => {
                    let tpx = w.x - nearest.x;
                    let tpy = w.y - nearest.y;
                    let tpz = w.z - nearest.z;
                    proof {
                        assert(self.points.spec_normal(nearest_idx as int).bounded(1_000_000));
                        crate::scalar::lemma_mul_bounds(nrm.x as int, tpx as int, 1_000_000,
                            5_600_000);
                        crate::scalar::lemma_mul_bounds(nrm.y as int, tpy as int, 1_000_000,
                            5_600_000);
                        crate::scalar::lemma_mul_bounds(nrm.z as int, tpz as int, 1_000_000,
                            5_600_000);
                    }
                    let dot = nrm.x * tpx + nrm.y * tpy + nrm.z * tpz;
                    sign = if dot >= 0 {
                        1
                    } else {
                        -1
                    };
                },
                None => {
                    sign = if dist > mean {
                        1
                    } else {
                        -1
                    };
                },
            }
            proof {
                assert(sign * dist == dist || sign * dist == -(dist as int))
                    by (nonlinear_arith)
                    requires sign == 1 || sign == -1;
            }
            d = sign * dist;
        }
        self.distance_cache.insert(key, d);
        proof {
            assert(d as int == spec_field(pb, origin, s, self.kd as int, ccc));
            assert forall|k: u64| #[trigger] self.distance_cache@.contains_key(k)
                implies 0 <= k < 0x1000_0000_0000_0000 && coord_in_range(
                    spec_unpack(k as int)) && self.distance_cache@[k] as int == spec_field(
                    pb, origin, s, self.kd as int, spec_unpack(k as int)) by {
                if k != key {
                    assert(old(self).distance_cache@.contains_key(k));
                }
            }
        }
        d
    }
}

impl<'a> MarchingCubes<'a> {
    /// Runs the extraction: every non-empty cell of the grid is visited in
    /// insertion order, its cube case looked up, and its triangles emitted
    /// with vertices deduplicated per cell edge. Fails exactly when no
    /// vertex is produced; otherwise the mesh also carries vertex normals
    /// averaged from its face normals.
    #[verifier::rlimit(100)]
    #[verifier::spinoff_prover]
    pub fn reconstruct(&mut self) -> (r: Result<MeshBuffer, ReconstructionError>)
        requires
            old(self).wf(),
            old(self).grid.consistent_with(old(self).points.spec_points_seq()),
            forall|i: int|
                0 <= i < old(self).grid.cells@.len()
                    ==> (#[trigger] old(self).grid.cells@[i]).point_indices@.len() >= 1,
            old(self).grid.keys@.len() <= old(self).points.spec_num_points(),
        ensures
            final(self).wf(),
            final(self).grid == old(self).grid,
            final(self).points == old(self).points,
            final(self).kd == old(self).kd,
            ({
                let st = spec_extract(*old(self).points, old(self).grid.origin,
                    old(self).grid.voxel_size, old(self).kd as int, old(self).grid.keys@,
                    old(self).grid.keys@.len() as int);
                &&& st.0.len() == 0 ==> (r matches Err(e) && (e matches
                    ReconstructionError::AlgorithmError(_)))
                &&& st.0.len() > 0 ==> (r matches Ok(mesh) && {
                    &&& mesh.wf()
                    &&& mesh.spec_num_vertices() == st.0.len()
                    &&& forall|v: int|
                        0 <= v < st.0.len() ==> mesh.spec_vertex(v) == st.0[v]
                    &&& mesh.faces.data@.map_values(|u: u32| u as int) == st.1
                    &&& 3 * mesh.spec_num_faces() == st.1.len()
                    &&& mesh.faces_valid()
                    &&& mesh.vertex_normals is Some
                    &&& forall|v: int|
                        0 <= v < st.0.len() ==> mesh.spec_stored_vertex_normal(v)
                            == mesh.spec_vertex_normal_result(v)
                    &&& mesh.face_normals is Some
                    &&& forall|fi: int|
                        0 <= fi < mesh.spec_num_faces() ==> mesh.spec_stored_face_normal(fi)
                            == mesh.spec_face_normal(fi)
                })
            }),
    {
        let ghost pb = *self.points;
        let ghost origin = self.grid.origin;
        let ghost s = self.grid.voxel_size;
        let ghost gkeys = self.grid.keys@;
        let ghost kd = self.kd as int;
        proof {
            lemma_grid_coords_small(*self.grid, pb.spec_points_seq());
        }
        let coords = self.grid.cell_coords();
        let edge_tbl = MCTable::edge_table();
        let tri_tbl = MCTable::generate_tri_table();
        let m = coords.len();
        let mut verts: Vec<BaseVector> = Vec::new();
        let mut faces: Vec<u32> = Vec::new();
        let mut vmap: HashMap<u64, u32> = HashMap::new();
        let mut i: usize = 0;
        #[verifier::loop_isolation(false)]
        while i < m
            invariant
                self.wf(),
                self.grid == old(self).grid,
                self.points == old(self).points,
                self.kd == old(self).kd,
                *self.points == pb,
                self.grid.origin == origin,
                self.grid.voxel_size == s,
                self.grid.keys@ == gkeys,
                self.kd as int == kd,
                m == gkeys.len(),
                m <= 1_000_000,
                coords@.len() == m,
                forall|t: int|
                    0 <= t < m ==> spec_pack(((#[trigger] coords@[t]).0 as int,
                        coords@[t].1 as int, coords@[t].2 as int)) == gkeys[t] as int
                        && coord_in_range((coords@[t].0 as int, coords@[t].1 as int,
                        coords@[t].2 as int)),
                forall|t: int|
                    0 <= t < m ==> {
                        let u = spec_unpack(#[trigger] gkeys[t] as int);
                        0 <= u.0 <= 1_000_001 && 0 <= u.1 <= 1_000_001 && 0 <= u.2
                            <= 1_000_001 && (u.0 + 1) * (s as int) <= 3_000_000 && (u.1 + 1)
                            * (s as int) <= 3_000_000 && (u.2 + 1) * (s as int) <= 3_000_000
                    },
                edge_tbl@ == edge_mask_seq(),
                tri_tbl@ == tri_row_seq(),
                i <= m,
                verts@.len() <= 15 * (i as int),
                faces@.len() <= 15 * (i as int),
                faces@.len() as int % 3 == 0,
                forall|t: int|
                    0 <= t < faces@.len() ==> (#[trigger] faces@[t] as int) < verts@.len(),
                forall|t: int|
                    0 <= t < verts@.len() ==> (#[trigger] verts@[t]).bounded(11_000_000),
                forall|k: u64|
                    #[trigger] vmap@.contains_key(k) ==> (vmap@[k] as int) < verts@.len(),
                ({
                    let st = spec_extract(pb, origin, s, kd, gkeys, i as int);
                    &&& verts@ == st.0
                    &&& faces@.map_values(|u: u32| u as int) == st.1
                    &&& vmap_view(vmap@) == st.2
                }),
            decreases m - i,
        {
            let c = coords[i];
            self.process_cell(&mut verts, &mut faces, &mut vmap, c, i, &edge_tbl, &tri_tbl);
            i = i + 1;
        }
        let ghost st_all = spec_extract(pb, origin, s, kd, gkeys, m as int);
        if verts.len() == 0 {
            return Err(ReconstructionError::AlgorithmError(
                "No surface found - check voxel size and point distribution".to_string()));
        }
        let ghost vseq = verts@;
        let ghost fseq = faces@;
        let mut mesh = MeshBuffer::new();
        mesh.set_vertices(verts);
        mesh.set_faces(faces);
        proof {
            assert(mesh.spec_num_vertices() == vseq.len());
            assert forall|v: int| 0 <= v < mesh.spec_num_vertices()
                implies (#[trigger] mesh.spec_vertex(v)).bounded(
                    crate::vector::COORD_LIMIT as int) by {
                assert(mesh.spec_vertex(v) == vseq[v]);
                assert(vseq[v].bounded(11_000_000));
            }
            crate::point_buffer::lemma_triple_len(fseq.len() as int,
                fseq.len() as int / 3);
            assert forall|fi: int| 0 <= fi < mesh.spec_num_faces() implies {
                let f = #[trigger] mesh.spec_face(fi);
                f.0 < mesh.spec_num_vertices() && f.1 < mesh.spec_num_vertices() && f.2
                    < mesh.spec_num_vertices()
            } by {
                assert(mesh.faces.data@ == fseq);
                assert((fseq[3 * fi] as int) < vseq.len());
                assert((fseq[3 * fi + 1] as int) < vseq.len());
                assert((fseq[3 * fi + 2] as int) < vseq.len());
            }
        }
        let ghost pre_mesh = mesh;
        mesh.compute_vertex_normals();
        proof {
            assert(mesh.faces.data@.map_values(|u: u32| u as int) == st_all.1);
            assert forall|fi: int| 0 <= fi < mesh.spec_num_faces()
                implies mesh.spec_stored_face_normal(fi) == mesh.spec_face_normal(fi) by {
                assert(mesh.spec_stored_face_normal(fi) == pre_mesh.spec_face_normal(fi));
                assert(mesh.faces.data@ == pre_mesh.faces.data@);
                assert(mesh.vertices.data@ == pre_mesh.vertices.data@);
                assert(mesh.spec_face_normal(fi) == pre_mesh.spec_face_normal(fi));
            }
        }
        Ok(mesh)
    }

    /// Samples the field at the eight corners of one cell, returning the
    /// corner world positions and their field values in corner order.
    #[verifier::rlimit(100)]
    #[verifier::spinoff_prover]
    fn sample_cell(&mut self, c: (i64, i64, i64)) -> (r: (Vec<BaseVector>, Vec<i64>))
        requires
            old(self).wf(),
            coord_in_range((c.0 as int, c.1 as int, c.2 as int)),
            c.0 <= 1_000_001 && c.1 <= 1_000_001 && c.2 <= 1_000_001,
            ({
                let u = (c.0 as int, c.1 as int, c.2 as int);
                let s = old(self).grid.voxel_size as int;
                (u.0 + 1) * s <= 3_000_000 && (u.1 + 1) * s <= 3_000_000 && (u.2 + 1) * s
                    <= 3_000_000
            }),
        ensures
            final(self).wf(),
            final(self).grid == old(self).grid,
            final(self).points == old(self).points,
            final(self).tree == old(self).tree,
            final(self).kd == old(self).kd,
            r.0@.len() == 8,
            r.1@.len() == 8,
            forall|t: int|
                0 <= t < 8 ==> #[trigger] r.0@[t] == spec_corner_world(old(self).grid.origin,
                    old(self).grid.voxel_size, spec_corner_coord(
                    (c.0 as int, c.1 as int, c.2 as int), t)),
            forall|t: int|
                0 <= t < 8 ==> #[trigger] r.1@[t] as int == spec_field(*old(self).points,
                    old(self).grid.origin, old(self).grid.voxel_size, old(self).kd as int,
                    spec_corner_coord((c.0 as int, c.1 as int, c.2 as int), t)),
            forall|t: int| 0 <= t < 8 ==> (#[trigger] r.0@[t]).bounded(5_100_000),
            forall|t: int| 0 <= t < 8 ==> -10_000_000 <= #[trigger] r.1@[t] <= 10_000_000,
    {
        let ghost pb = *self.points;
        let ghost origin = self.grid.origin;
        let ghost s = self.grid.voxel_size;
        let ghost kd = self.kd as int;
        let ghost cc = (c.0 as int, c.1 as int, c.2 as int);
        proof {
            assert((cc.0) * (s as int) <= (cc.0 + 1) * (s as int)) by (nonlinear_arith)
                requires s as int >= 1;
            assert((cc.1) * (s as int) <= (cc.1 + 1) * (s as int)) by (nonlinear_arith)
                requires s as int >= 1;
            assert((cc.2) * (s as int) <= (cc.2 + 1) * (s as int)) by (nonlinear_arith)
                requires s as int >= 1;
        }
        let pos0 = self.grid.cell_corner((c.0, c.1, c.2));
        let pos1 = self.grid.cell_corner((c.0 + 1, c.1, c.2));
        let pos2 = self.grid.cell_corner((c.0 + 1, c.1 + 1, c.2));
        let pos3 = self.grid.cell_corner((c.0, c.1 + 1, c.2));
        let pos4 = self.grid.cell_corner((c.0, c.1, c.2 + 1));
        let pos5 = self.grid.cell_corner((c.0 + 1, c.1, c.2 + 1));
        let pos6 = self.grid.cell_corner((c.0 + 1, c.1 + 1, c.2 + 1));
        let pos7 = self.grid.cell_corner((c.0, c.1 + 1, c.2 + 1));
        let d0 = self.compute_distance((c.0, c.1, c.2));
        let d1 = self.compute_distance((c.0 + 1, c.1, c.2));
        let d2 = self.compute_distance((c.0 + 1, c.1 + 1, c.2));
        let d3 = self.compute_distance((c.0, c.1 + 1, c.2));
        let d4 = self.compute_distance((c.0, c.1, c.2 + 1));
        let d5 = self.compute_distance((c.0 + 1, c.1, c.2 + 1));
        let d6 = self.compute_distance((c.0 + 1, c.1 + 1, c.2 + 1));
        let d7 = self.compute_distance((c.0, c.1 + 1, c.2 + 1));
        let mut positions: Vec<BaseVector> = Vec::new();
        positions.push(pos0);
        positions.push(pos1);
        positions.push(pos2);
        positions.push(pos3);
        positions.push(pos4);
        positions.push(pos5);
        positions.push(pos6);
        positions.push(pos7);
        let mut dvals: Vec<i64> = Vec::new();
        dvals.push(d0);
        dvals.push(d1);
        dvals.push(d2);
        dvals.push(d3);
        dvals.push(d4);
        dvals.push(d5);
        dvals.push(d6);
        dvals.push(d7);
        proof {
            assert forall|t: int| 0 <= t < 8 implies #[trigger] positions@[t]
                == spec_corner_world(origin, s, spec_corner_coord(cc, t))
                && dvals@[t] as int == spec_field(pb, origin, s, kd,
                spec_corner_coord(cc, t)) && positions@[t].bounded(5_100_000)
                && -10_000_000 <= dvals@[t] <= 10_000_000 by {
                lemma_corner_world_bounded(origin, s, spec_corner_coord(cc, t));
            }
        }
        (positions, dvals)
    }

    /// Processes one cell of the extraction walk: samples the field at its
    /// corners, and emits the cube case's triangles into the output state.
    #[verifier::rlimit(100)]
    #[verifier::spinoff_prover]
    fn process_cell(
        &mut self,
        verts: &mut Vec<BaseVector>,
        faces: &mut Vec<u32>,
        vmap: &mut HashMap<u64, u32>,
        c: (i64, i64, i64),
        i: usize,
        edge_tbl: &Vec<u16>,
        tri_tbl: &Vec<u64>,
    )
        requires
            old(self).wf(),
            edge_tbl@ == edge_mask_seq(),
            tri_tbl@ == tri_row_seq(),
            i < old(self).grid.keys@.len(),
            old(self).grid.keys@.len() <= 1_000_000,
            spec_pack((c.0 as int, c.1 as int, c.2 as int))
                == old(self).grid.keys@[i as int] as int,
            coord_in_range((c.0 as int, c.1 as int, c.2 as int)),
            ({
                let u = spec_unpack(old(self).grid.keys@[i as int] as int);
                let s = old(self).grid.voxel_size as int;
                0 <= u.0 <= 1_000_001 && 0 <= u.1 <= 1_000_001 && 0 <= u.2 <= 1_000_001
                    && (u.0 + 1) * s <= 3_000_000 && (u.1 + 1) * s <= 3_000_000 && (u.2 + 1)
                    * s <= 3_000_000
            }),
            old(verts)@.len() <= 15 * (i as int),
            old(faces)@.len() <= 15 * (i as int),
            old(faces)@.len() as int % 3 == 0,
            forall|t: int|
                0 <= t < old(faces)@.len() ==> (#[trigger] old(faces)@[t] as int) < old(
                    verts)@.len(),
            forall|t: int|
                0 <= t < old(verts)@.len() ==> (#[trigger] old(verts)@[t]).bounded(
                    11_000_000),
            forall|k: u64|
                #[trigger] old(vmap)@.contains_key(k) ==> (old(vmap)@[k] as int) < old(
                    verts)@.len(),
        ensures
            final(self).wf(),
            final(self).grid == old(self).grid,
            final(self).points == old(self).points,
            final(self).tree == old(self).tree,
            final(self).kd == old(self).kd,
            ({
                let st = spec_cell_step(*old(self).points, old(self).grid.origin,
                    old(self).grid.voxel_size, old(self).kd as int, old(verts)@, old(
                    faces)@.map_values(|u: u32| u as int), vmap_view(old(vmap)@),
                    (c.0 as int, c.1 as int, c.2 as int));
                &&& final(verts)@ == st.0
                &&& final(faces)@.map_values(|u: u32| u as int) == st.1
                &&& vmap_view(final(vmap)@) == st.2
            }),
            final(verts)@.len() <= 15 * (i as int) + 15,
            final(faces)@.len() <= 15 * (i as int) + 15,
            final(faces)@.len() as int % 3 == 0,
            forall|t: int|
                0 <= t < final(faces)@.len() ==> (#[trigger] final(faces)@[t] as int)
                    < final(verts)@.len(),
            forall|t: int|
                0 <= t < final(verts)@.len() ==> (#[trigger] final(verts)@[t]).bounded(
                    11_000_000),
            forall|k: u64|
                #[trigger] final(vmap)@.contains_key(k) ==> (final(vmap)@[k] as int)
                    < final(verts)@.len(),
    {
        let ghost pb = *self.points;
        let ghost origin = self.grid.origin;
        let ghost s = self.grid.voxel_size;
        let ghost gkeys = self.grid.keys@;
        let ghost kd = self.kd as int;
        let ghost cc = (c.0 as int, c.1 as int, c.2 as int);
        proof {
            lemma_unpack(gkeys[i as int] as int);
            crate::hash_grid::lemma_pack_injective(spec_unpack(gkeys[i as int] as int), cc);
            assert(spec_unpack(gkeys[i as int] as int) == cc);
            let u = cc;
            assert((u.0) * (s as int) <= (u.0 + 1) * (s as int)) by (nonlinear_arith)
                requires s as int >= 1;
            assert((u.1) * (s as int) <= (u.1 + 1) * (s as int)) by (nonlinear_arith)
                requires s as int >= 1;
            assert((u.2) * (s as int) <= (u.2 + 1) * (s as int)) by (nonlinear_arith)
                requires s as int >= 1;
        }
        let (positions, dvals) = self.sample_cell(c);
        let mut ci: usize = 0;
        if dvals[0] < 0 {
            ci = ci + 1;
        }
        if dvals[1] < 0 {
            ci = ci + 2;
        }
        if dvals[2] < 0 {
            ci = ci + 4;
        }
        if dvals[3] < 0 {
            ci = ci + 8;
        }
        if dvals[4] < 0 {
            ci = ci + 16;
        }
        if dvals[5] < 0 {
            ci = ci + 32;
        }
        if dvals[6] < 0 {
            ci = ci + 64;
        }
        if dvals[7] < 0 {
            ci = ci + 128;
        }
        proof {
            assert(ci as int == spec_cube_index(pb, origin, s, kd, cc));
            assert(ci <= 255);
        }
        if ci == 0 || ci == 255 {
            return;
        }
        let mask = edge_tbl[ci];
        if mask == 0 {
            return;
        }
        let mut ev: Vec<BaseVector> = Vec::new();
        let mut e: usize = 0;
        while e < 12
            invariant
                e <= 12,
                ev@.len() == e,
                positions@.len() == 8,
                dvals@.len() == 8,
                mask == edge_mask_seq()[ci as int],
                ci as int == spec_cube_index(pb, origin, s, kd, cc),
                forall|t: int| 0 <= t < 8 ==> #[trigger] positions@[t]
                    == spec_corner_world(origin, s, spec_corner_coord(cc, t)),
                forall|t: int| 0 <= t < 8 ==> #[trigger] dvals@[t] as int
                    == spec_field(pb, origin, s, kd, spec_corner_coord(cc, t)),
                forall|t: int|
                    0 <= t < 8 ==> (#[trigger] positions@[t]).bounded(5_100_000),
                forall|t: int|
                    0 <= t < 8 ==> -10_000_000 <= #[trigger] dvals@[t] <= 10_000_000,
                forall|t: int| 0 <= t < e ==> #[trigger] ev@[t]
                    == spec_edge_vertices(pb, origin, s, kd, cc)[t],
                forall|t: int|
                    0 <= t < e ==> (#[trigger] ev@[t]).bounded(11_000_000),
            decreases 12 - e,
        {
            let pair = edge_pair(e);
            let v: BaseVector;
            if mask & (1u16 << (e as u16)) != 0 {
                v = interp_edge(positions[pair.0], positions[pair.1], dvals[pair.0],
                    dvals[pair.1]);
            } else {
                v = BaseVector { x: 0, y: 0, z: 0 };
            }
            proof {
                assert((1u16 << (e as u16)) == (1u16 << (e as int))) by (bit_vector)
                    requires e < 12;
                assert(v == spec_edge_vertices(pb, origin, s, kd, cc)[e as int]);
            }
            ev.push(v);
            e = e + 1;
        }
        let row = tri_tbl[ci];
        let mut nibs: Vec<usize> = Vec::new();
        let mut rem: u64 = row;
        let mut done = false;
        while !done && nibs.len() < 15
            invariant
                nibs@.len() <= 15,
                !done ==> spec_decode_row(row as int, 15) == nibs@.map_values(
                    |u: usize| u as int) + spec_decode_row(rem as int,
                    (15 - nibs@.len()) as nat),
                done ==> spec_decode_row(row as int, 15) == nibs@.map_values(
                    |u: usize| u as int),
                forall|t: int| 0 <= t < nibs@.len() ==> 0 <= #[trigger] nibs@[t] < 12,
            decreases 16 - nibs@.len() - (if done { 1int } else { 0 }),
        {
            let nib = (rem % 16) as usize;
            if nib >= 12 {
                done = true;
                proof {
                    assert(spec_decode_row(rem as int, (15 - nibs@.len()) as nat)
                        =~= Seq::<int>::empty());
                    assert(nibs@.map_values(|u: usize| u as int) + Seq::<int>::empty()
                        =~= nibs@.map_values(|u: usize| u as int));
                }
            } else {
                let ghost before = nibs@;
                nibs.push(nib);
                rem = rem / 16;
                proof {
                    assert(before.map_values(|u: usize| u as int).push(nib as int)
                        =~= nibs@.map_values(|u: usize| u as int));
                    assert(before.map_values(|u: usize| u as int) + (seq![nib as int]
                        + spec_decode_row(rem as int, (15 - nibs@.len()) as nat))
                        =~= nibs@.map_values(|u: usize| u as int) + spec_decode_row(
                        rem as int, (15 - nibs@.len()) as nat));
                }
            }
        }
        proof {
            if !done {
                assert(nibs@.len() == 15);
                assert(spec_decode_row(rem as int, 0) =~= Seq::<int>::empty());
                assert(nibs@.map_values(|u: usize| u as int) + Seq::<int>::empty()
                    =~= nibs@.map_values(|u: usize| u as int));
            }
        }
        let key_base = self.grid.keys[i];
        proof {
            assert(key_base == gkeys[i as int]);
        }
        emit_cell_triangles(&mut *verts, &mut *faces, &mut *vmap, key_base, &nibs, &ev,
            Ghost(i as int));
        proof {
            let all_nibs = nibs@.map_values(|u: usize| u as int);
            let ckey = gkeys[i as int] as int;
            assert forall|q: int| 0 <= q < 12 implies #[trigger] ev@[q]
                == spec_edge_vertices(pb, origin, s, kd, cc)[q] by {}
            assert(ev@ =~= spec_edge_vertices(pb, origin, s, kd, cc));
            assert(all_nibs == spec_decode_row(tri_row_seq()[ci as int] as int, 15));
        }
    }
}

/// Emits the triangles of one cell row into the output state: every triple
/// of edge identifiers becomes one face, with its vertices deduplicated
/// per cell and edge.
#[verifier::rlimit(100)]
#[verifier::spinoff_prover]
fn emit_cell_triangles(
    verts: &mut Vec<BaseVector>,
    faces: &mut Vec<u32>,
    vmap: &mut HashMap<u64, u32>,
    key_base: u64,
    nibs: &Vec<usize>,
    ev: &Vec<BaseVector>,
    Ghost(i): Ghost<int>,
)
    requires
        0 <= (key_base as int) < 0x1000_0000_0000_0000,
        nibs@.len() <= 15,
        forall|q: int| 0 <= q < nibs@.len() ==> 0 <= #[trigger] nibs@[q] < 12,
        ev@.len() == 12,
        forall|q: int| 0 <= q < 12 ==> (#[trigger] ev@[q]).bounded(11_000_000),
        0 <= i < 1_000_000,
        old(verts)@.len() <= 15 * i,
        old(faces)@.len() <= 15 * i,
        old(faces)@.len() as int % 3 == 0,
        forall|q: int|
            0 <= q < old(faces)@.len() ==> (#[trigger] old(faces)@[q] as int) < old(
                verts)@.len(),
        forall|q: int|
            0 <= q < old(verts)@.len() ==> (#[trigger] old(verts)@[q]).bounded(11_000_000),
        forall|k: u64|
            #[trigger] old(vmap)@.contains_key(k) ==> (old(vmap)@[k] as int) < old(
                verts)@.len(),
    ensures
        ({
            let st = spec_emit_triangles(old(verts)@, old(faces)@.map_values(
                |u: u32| u as int), vmap_view(old(vmap)@), key_base as int, ev@,
                nibs@.map_values(|u: usize| u as int));
            &&& final(verts)@ == st.0
            &&& final(faces)@.map_values(|u: u32| u as int) == st.1
            &&& vmap_view(final(vmap)@) == st.2
        }),
        final(verts)@.len() <= 15 * i + 15,
        final(faces)@.len() <= 15 * i + 15,
        final(faces)@.len() as int % 3 == 0,
        forall|q: int|
            0 <= q < final(faces)@.len() ==> (#[trigger] final(faces)@[q] as int) < final(
                verts)@.len(),
        forall|q: int|
            0 <= q < final(verts)@.len() ==> (#[trigger] final(verts)@[q]).bounded(
                11_000_000),
        forall|k: u64|
            #[trigger] final(vmap)@.contains_key(k) ==> (final(vmap)@[k] as int) < final(
                verts)@.len(),
{
    let ghost all_nibs = nibs@.map_values(|u: usize| u as int);
    let ghost ckey = key_base as int;
    let ghost ev_seq = ev@;
    let ghost vb = old(verts)@;
    let ghost fb = old(faces)@.map_values(|u: u32| u as int);
    let ghost mb = vmap_view(old(vmap)@);
    proof {
        assert(vmap_matches(old(vmap)@, vmap_view(old(vmap)@)));
    }
    let mut t: usize = 0;
    proof {
        assert(all_nibs.skip(0) =~= all_nibs);
    }
    while 3 * t + 3 <= nibs.len()
        invariant
            0 <= ckey < 0x1000_0000_0000_0000,
            ckey == key_base as int,
            nibs@.len() <= 15,
            forall|q: int| 0 <= q < nibs@.len() ==> 0 <= #[trigger] nibs@[q] < 12,
            all_nibs == nibs@.map_values(|u: usize| u as int),
            ev_seq == ev@,
            ev@.len() == 12,
            forall|q: int| 0 <= q < 12 ==> (#[trigger] ev@[q]).bounded(11_000_000),
            3 * t <= nibs@.len(),
            0 <= i < 1_000_000,
            verts@.len() <= 15 * i + 3 * (t as int),
            faces@.len() <= 15 * i + 3 * (t as int),
            faces@.len() as int % 3 == 0,
            forall|q: int|
                0 <= q < faces@.len() ==> (#[trigger] faces@[q] as int) < verts@.len(),
            forall|q: int|
                0 <= q < verts@.len() ==> (#[trigger] verts@[q]).bounded(11_000_000),
            forall|k: u64|
                #[trigger] vmap@.contains_key(k) ==> (vmap@[k] as int) < verts@.len(),
            spec_emit_triangles(verts@, faces@.map_values(|u: u32| u as int),
                vmap_view(vmap@), ckey, ev_seq, all_nibs.skip(3 * t))
                == spec_emit_triangles(vb, fb, mb, ckey, ev_seq, all_nibs),
        decreases nibs@.len() - 3 * t,
    {
        let ghost rem_nibs = all_nibs.skip(3 * t as int);
        let ghost cur_v = verts@;
        let ghost cur_f = faces@.map_values(|u: u32| u as int);
        let ghost cur_m = vmap_view(vmap@);
        let e0 = nibs[3 * t];
        let e1 = nibs[3 * t + 1];
        let e2 = nibs[3 * t + 2];
        proof {
            assert(rem_nibs[0] == all_nibs[3 * t as int]);
            assert(rem_nibs[1] == all_nibs[3 * t as int + 1]);
            assert(rem_nibs[2] == all_nibs[3 * t as int + 2]);
            lemma_vkey_fits(ckey, e0 as int);
            lemma_vkey_fits(ckey, e1 as int);
            lemma_vkey_fits(ckey, e2 as int);
            assert((key_base as int) * 16 + 15 < 0x1_0000_0000_0000_0000)
                by (nonlinear_arith)
                requires 0 <= (key_base as int) && (key_base as int)
                    < 0x1000_0000_0000_0000;
        }
        let i0 = add_or_get_vertex(&mut *verts, &mut *vmap, key_base * 16 + (e0 as u64),
            ev[e0]);
        let i1 = add_or_get_vertex(&mut *verts, &mut *vmap, key_base * 16 + (e1 as u64),
            ev[e1]);
        let i2 = add_or_get_vertex(&mut *verts, &mut *vmap, key_base * 16 + (e2 as u64),
            ev[e2]);
        faces.push(i0);
        faces.push(i1);
        faces.push(i2);
        proof {
            let r0 = spec_add_vertex(cur_v, cur_m, ckey * 16 + e0 as int,
                ev_seq[e0 as int]);
            let r1 = spec_add_vertex(r0.0, r0.1, ckey * 16 + e1 as int,
                ev_seq[e1 as int]);
            let r2 = spec_add_vertex(r1.0, r1.1, ckey * 16 + e2 as int,
                ev_seq[e2 as int]);
            assert(faces@.map_values(|u: u32| u as int) =~= cur_f.push(i0 as int).push(
                i1 as int).push(i2 as int));
            assert(verts@ == r2.0);
            assert(vmap_view(vmap@) == r2.1);
            assert(i0 as int == r0.2 && i1 as int == r1.2 && i2 as int == r2.2);
            assert(all_nibs.skip(3 * t as int).skip(3) =~= all_nibs.skip(
                3 * (t as int + 1)));
            assert(spec_emit_triangles(cur_v, cur_f, cur_m, ckey, ev_seq, rem_nibs)
                == spec_emit_triangles(verts@, faces@.map_values(|u: u32| u as int),
                vmap_view(vmap@), ckey, ev_seq, all_nibs.skip(3 * (t as int + 1))));
            crate::point_buffer::lemma_triple_len(faces@.len() as int,
                faces@.len() as int / 3);
        }
        t = t + 1;
    }
    proof {
        let done_nibs = all_nibs.skip(3 * t as int);
        assert(done_nibs.len() < 3);
        assert(spec_emit_triangles(verts@, faces@.map_values(|u: u32| u as int),
            vmap_view(vmap@), ckey, ev_seq, done_nibs) == (verts@, faces@.map_values(
            |u: u32| u as int), vmap_view(vmap@)));
    }
}

/// Emitting triangles preserves the face alignment and ties vertices to
/// faces: a state that has vertices also has faces.
proof fn lemma_emit_geometry(
    verts: Seq<BaseVector>,
    faces: Seq<int>,
    vmap: Map<int, int>,
    ckey: int,
    ev: Seq<BaseVector>,
    nibs: Seq<int>,
)
    requires
        faces.len() % 3 == 0,
        verts.len() > 0 ==> faces.len() > 0,
    ensures
        ({
            let st = spec_emit_triangles(verts, faces, vmap, ckey, ev, nibs);
            &&& st.1.len() % 3 == 0
            &&& st.0.len() > 0 ==> st.1.len() > 0
            &&& st.0.len() >= verts.len()
            &&& st.1.len() >= faces.len()
        }),
    decreases nibs.len(),
{
    if nibs.len() >= 3 {
        let e0 = nibs[0];
        let e1 = nibs[1];
        let e2 = nibs[2];
        let r0 = spec_add_vertex(verts, vmap, ckey * 16 + e0, ev[e0]);
        let r1 = spec_add_vertex(r0.0, r0.1, ckey * 16 + e1, ev[e1]);
        let r2 = spec_add_vertex(r1.0, r1.1, ckey * 16 + e2, ev[e2]);
        let faces2 = faces.push(r0.2).push(r1.2).push(r2.2);
        lemma_emit_geometry(r2.0, faces2, r2.1, ckey, ev, nibs.skip(3));
    }
}

/// The extraction state is always face-aligned, and it never holds
/// vertices without holding faces.
pub proof fn lemma_extraction_geometry(
    pb: PointBuffer,
    origin: BaseVector,
    s: i64,
    kd: int,
    keys: Seq<u64>,
    upto: int,
)
    ensures
        ({
            let st = spec_extract(pb, origin, s, kd, keys, upto);
            &&& st.1.len() % 3 == 0
            &&& st.0.len() > 0 ==> st.1.len() > 0
        }),
    decreases upto,
{
    if upto > 0 {
        lemma_extraction_geometry(pb, origin, s, kd, keys, upto - 1);
        let st = spec_extract(pb, origin, s, kd, keys, upto - 1);
        let c = spec_unpack(keys[upto - 1] as int);
        let ci = spec_cube_index(pb, origin, s, kd, c);
        if ci != 0 && ci != 255 && edge_mask_seq()[ci] != 0 {
            let ev = spec_edge_vertices(pb, origin, s, kd, c);
            let nibs = spec_decode_row(tri_row_seq()[ci] as int, 15);
            lemma_emit_geometry(st.0, st.1, st.2, spec_pack(c), ev, nibs);
        }
    }
}

/// The corner pair of edge `e`, as executable data.
fn edge_pair(e: usize) -> (r: (usize, usize))
    requires
        e < 12,
    ensures
        r.0 < 8 && r.1 < 8,
        (r.0 as int, r.1 as int) == spec_edge_pairs()[e as int],
{
    if e == 0 {
        (0, 1)
    } else if e == 1 {
        (1, 2)
    } else if e == 2 {
        (2, 3)
    } else if e == 3 {
        (3, 0)
    } else if e == 4 {
        (4, 5)
    } else if e == 5 {
        (5, 6)
    } else if e == 6 {
        (6, 7)
    } else if e == 7 {
        (7, 4)
    } else if e == 8 {
        (0, 4)
    } else if e == 9 {
        (1, 5)
    } else if e == 10 {
        (2, 6)
    } else {
        (3, 7)
    }
}

/// The view a vertex-dedup map has as a mathematical map.
pub open spec fn vmap_view(em: Map<u64, u32>) -> Map<int, int> {
    Map::new(|k: int| 0 <= k < 0x1_0000_0000_0000_0000 && em.contains_key(k as u64),
        |k: int| em[k as u64] as int)
}

/// The executable dedup map stands for the mathematical one.
pub open spec fn vmap_matches(em: Map<u64, u32>, sm: Map<int, int>) -> bool {
    &&& forall|k: int|
        #[trigger] sm.contains_key(k) ==> 0 <= k < 0x1_0000_0000_0000_0000
            && em.contains_key(k as u64) && em[k as u64] as int == sm[k]
    &&& forall|k: u64| #[trigger] em.contains_key(k) ==> sm.contains_key(k as int)
}

/// A cell key and an edge identifier pack into a vertex key.
proof fn lemma_vkey_fits(ckey: int, e: int)
    requires
        0 <= ckey < 0x1000_0000_0000_0000,
        0 <= e < 12,
    ensures
        0 <= ckey * 16 + e < 0x1_0000_0000_0000_0000,
{
    assert(ckey * 16 <= (0x1000_0000_0000_0000 - 1) * 16) by (nonlinear_arith)
        requires ckey <= 0x1000_0000_0000_0000 - 1;
    assert((0x1000_0000_0000_0000int - 1) * 16 == 0xFFFF_FFFF_FFFF_FFF0int);
    assert(ckey * 16 >= 0) by (nonlinear_arith)
        requires ckey >= 0;
}

/// Looks up or appends the crossing vertex for the key `vkey`, returning
/// the vertex index to use.
fn add_or_get_vertex(
    verts: &mut Vec<BaseVector>,
    vmap: &mut HashMap<u64, u32>,
    vkey: u64,
    pos: BaseVector,
) -> (r: u32)
    requires
        old(verts)@.len() < 100_000_000,
        pos.bounded(11_000_000),
        forall|q: int|
            0 <= q < old(verts)@.len() ==> (#[trigger] old(verts)@[q]).bounded(11_000_000),
        vmap_matches(old(vmap)@, vmap_view(old(vmap)@)),
        forall|k: u64|
            #[trigger] old(vmap)@.contains_key(k) ==> (old(vmap)@[k] as int) < old(
                verts)@.len(),
    ensures
        ({
            let step = spec_add_vertex(old(verts)@, vmap_view(old(vmap)@), vkey as int, pos);
            &&& final(verts)@ == step.0
            &&& vmap_view(final(vmap)@) == step.1
            &&& r as int == step.2
            &&& vmap_matches(final(vmap)@, vmap_view(final(vmap)@))
            &&& r < final(verts)@.len()
            &&& old(verts)@.len() <= final(verts)@.len() <= old(verts)@.len() + 1
            &&& forall|q: int|
                0 <= q < final(verts)@.len() ==> (#[trigger] final(verts)@[q]).bounded(
                    11_000_000)
            &&& forall|k: u64|
                #[trigger] final(vmap)@.contains_key(k) ==> (final(vmap)@[k] as int) < final(
                    verts)@.len()
        }),
{
    let ghost sm = vmap_view(old(vmap)@);
    match vmap.get(&vkey) {
        Some(idx_ref) => {
            let idx = *idx_ref;
            proof {
                assert(sm.contains_key(vkey as int));
                assert(sm[vkey as int] == idx as int);
                assert((idx as int) < verts@.len());
            }
            idx
        },
        None => {
            proof {
                if sm.contains_key(vkey as int) {
                    assert(old(vmap)@.contains_key(vkey));
                }
            }
            let idx = verts.len() as u32;
            verts.push(pos);
            vmap.insert(vkey, idx);
            proof {
                assert(vmap_view(vmap@) =~= sm.insert(vkey as int, idx as int));
            }
            idx
        },
    }
}

/// Computes the crossing point of one cell edge from its endpoint
/// positions and field values.
fn interp_edge(p1: BaseVector, p2: BaseVector, d1: i64, d2: i64) -> (r: BaseVector)
    requires
        p1.bounded(5_100_000),
        p2.bounded(5_100_000),
        -10_000_000 <= d1 <= 10_000_000,
        -10_000_000 <= d2 <= 10_000_000,
    ensures
        r == spec_interp(p1, p2, d1 as int, d2 as int),
        r.bounded(11_000_000),
{
    if d1 == 0 {
        return p1;
    }
    if d2 == 0 {
        return p2;
    }
    if d1 == d2 {
        return p1;
    }
    if (d1 < 0) == (d2 < 0) {
        return p1;
    }
    let den = d1 - d2;
    proof {
        lemma_frac_between(p2.x - p1.x, d1 as int, d2 as int);
        lemma_frac_between(p2.y - p1.y, d1 as int, d2 as int);
        lemma_frac_between(p2.z - p1.z, d1 as int, d2 as int);
        assert(den != 0 && -20_000_001 <= den <= 20_000_001);
    }
    let fx = frac_floor((p2.x - p1.x) * d1, den);
    let fy = frac_floor((p2.y - p1.y) * d1, den);
    let fz = frac_floor((p2.z - p1.z) * d1, den);
    BaseVector { x: p1.x + fx, y: p1.y + fy, z: p1.z + fz }
}

/// Floor division with the divisor's sign moved into the numerator.
fn frac_floor(num: i64, den: i64) -> (r: i64)
    requires
        den != 0,
        -20_000_001 <= den <= 20_000_001,
        -200_000_000_000_000 <= num <= 200_000_000_000_000,
    ensures
        r as int == spec_frac(num as int, den as int),
{
    if den > 0 {
        div_floor_i64(num, den)
    } else {
        div_floor_i64(-num, -den)
    }
}

/// When the field values straddle zero, the interpolation offset stays
/// within the edge span.
proof fn lemma_frac_between(diff: int, d1: int, d2: int)
    requires
        -10_300_000 <= diff <= 10_300_000,
        d1 != 0,
        d2 != 0,
        (d1 < 0) != (d2 < 0),
        -10_000_000 <= d1 <= 10_000_000,
        -10_000_000 <= d2 <= 10_000_000,
    ensures
        diff >= 0 ==> 0 <= spec_frac(diff * d1, d1 - d2) <= diff,
        diff < 0 ==> diff <= spec_frac(diff * d1, d1 - d2) <= 0,
        -200_000_000_000_000 <= diff * d1 <= 200_000_000_000_000,
{
    crate::scalar::lemma_mul_bounds(diff, d1, 10_300_000, 10_000_000);
    assert(10_300_000 * 10_000_000 == 103_000_000_000_000int) by (nonlinear_arith);
    let den = d1 - d2;
    let ad1: int = if d1 >= 0 { d1 } else { -d1 };
    let aden: int = if den >= 0 { den } else { -den };
    assert(aden >= ad1 + 1);
    let adiff: int = if diff >= 0 { diff } else { -diff };
    let num: int = if den > 0 { diff * d1 } else { -(diff * d1) };
    assert(num == diff * ad1) by (nonlinear_arith)
        requires (den > 0 ==> num == diff * d1 && d1 == ad1) && (den <= 0 ==> num
            == -(diff * d1) && d1 == -ad1);
    assert(-(adiff * aden) <= num <= adiff * aden) by (nonlinear_arith)
        requires 0 <= adiff && 0 <= ad1 < aden && num == diff * ad1
            && (diff == adiff || diff == -adiff);
    let q = spec_frac(diff * d1, den);
    assert(q == num / aden);
    crate::scalar::lemma_div_bound_by(num, aden, adiff);
    crate::scalar::lemma_div_shrinks(num, aden);
    if diff >= 0 {
        assert(num >= 0) by (nonlinear_arith)
            requires num == diff * ad1 && diff >= 0 && ad1 >= 0;
    } else {
        assert(num <= 0) by (nonlinear_arith)
            requires num == diff * ad1 && diff < 0 && ad1 >= 0;
    }
}

/// The cells of a coherent grid have small coordinates: every key can be
/// unpacked into coordinates whose corners stay within the padded box.
proof fn lemma_grid_coords_small(g: HashGrid, pts: Seq<BaseVector>)
    requires
        g.wf(),
        g.consistent_with(pts),
        forall|i: int|
            0 <= i < g.cells@.len() ==> (#[trigger] g.cells@[i]).point_indices@.len() >= 1,
        forall|i: int| 0 <= i < pts.len() ==> (#[trigger] pts[i]).bounded(
            GRID_COORD_LIMIT as int),
    ensures
        forall|t: int|
            0 <= t < g.keys@.len() ==> {
                let u = spec_unpack(#[trigger] g.keys@[t] as int);
                &&& 0 <= u.0 <= 1_000_001 && 0 <= u.1 <= 1_000_001 && 0 <= u.2 <= 1_000_001
                &&& (u.0 + 1) * (g.voxel_size as int) <= 3_000_000
                &&& (u.1 + 1) * (g.voxel_size as int) <= 3_000_000
                &&& (u.2 + 1) * (g.voxel_size as int) <= 3_000_000
            },
{
    crate::hash_grid::lemma_grid_invariant(g, pts);
    assert forall|t: int| 0 <= t < g.keys@.len() implies {
        let u = spec_unpack(#[trigger] g.keys@[t] as int);
        &&& 0 <= u.0 <= 1_000_001 && 0 <= u.1 <= 1_000_001 && 0 <= u.2 <= 1_000_001
        &&& (u.0 + 1) * (g.voxel_size as int) <= 3_000_000
        &&& (u.1 + 1) * (g.voxel_size as int) <= 3_000_000
        &&& (u.2 + 1) * (g.voxel_size as int) <= 3_000_000
    } by {
        let idx = g.cells@[t].point_indices@[0];
        assert(0 <= idx < pts.len() && crate::hash_grid::spec_point_key(g.origin,
            g.voxel_size, pts[idx as int]) == g.keys@[t] as int);
        let p = pts[idx as int];
        let co = crate::hash_grid::spec_coord(g.origin, g.voxel_size, p);
        assert(coord_in_range(co));
        lemma_unpack(g.keys@[t] as int);
        crate::hash_grid::lemma_pack_injective(spec_unpack(g.keys@[t] as int), co);
        lemma_coord_product_small(p.x - g.origin.x, g.voxel_size as int);
        lemma_coord_product_small(p.y - g.origin.y, g.voxel_size as int);
        lemma_coord_product_small(p.z - g.origin.z, g.voxel_size as int);
    }
}

/// One axis of the coordinate arithmetic: a point within one voxel and a
/// megameter of the origin has a coordinate whose next corner stays
/// within three voxels of the box.
proof fn lemma_coord_product_small(d: int, s: int)
    requires
        1 <= s <= VOXEL_LIMIT as int,
        s <= d <= 1_000_000 + s,
    ensures
        0 <= d / s <= 1_000_001,
        (d / s + 1) * s <= 3_000_000,
{
    vstd::arithmetic::div_mod::lemma_fundamental_div_mod(d, s);
    vstd::arithmetic::div_mod::lemma_mod_division_less_than_divisor(d, s);
    let q = d / s;
    assert(s * q == d - d % s);
    assert(q >= 0) by (nonlinear_arith)
        requires s >= 1 && s * q > d - s && d >= s;
    assert(s * (q - 1) <= 1_000_000) by {
        assert(s * (q - 1) == s * q - s) by (nonlinear_arith);
    }
    assert(q - 1 <= 1_000_000) by (nonlinear_arith)
        requires s >= 1 && s * (q - 1) <= 1_000_000 && q - 1 >= -1;
    assert((q + 1) * s == s * q + s) by (nonlinear_arith);
}

/// Distances between a point and a corner position stay small./// Distances between a point and a corner position stay small.
proof fn lemma_dist_small(p: BaseVector, w: BaseVector)
    requires
        p.bounded(GRID_COORD_LIMIT as int),
        w.bounded(5_100_000),
    ensures
        0 <= spec_isqrt(p.spec_sub(w).spec_length2()) <= 10_000_000,
        p.spec_sub(w).spec_length2() <= 3 * (5_600_000 * 5_600_000),
        is_sqrt_holds(p.spec_sub(w).spec_length2()),
{
    let d = p.spec_sub(w);
    crate::scalar::lemma_mul_bounds(d.x as int, d.x as int, 5_600_000, 5_600_000);
    crate::scalar::lemma_mul_bounds(d.y as int, d.y as int, 5_600_000, 5_600_000);
    crate::scalar::lemma_mul_bounds(d.z as int, d.z as int, 5_600_000, 5_600_000);
    assert(5_600_000 * 5_600_000 == 31_360_000_000_000int) by (nonlinear_arith);
    let l2 = d.spec_length2();
    assert(l2 >= 0) by {
        assert(d.x * d.x >= 0 && d.y * d.y >= 0 && d.z * d.z >= 0) by (nonlinear_arith);
    }
    let root = spec_isqrt(l2);
    assert(is_sqrt_holds(l2)) by {
        lemma_isqrt_exists(l2);
    }
    assert(crate::scalar::is_sqrt(l2, root));
    if root > 10_000_000 {
        assert(root * root >= 10_000_001 * 10_000_001) by (nonlinear_arith)
            requires root >= 10_000_001;
        assert(10_000_001 * 10_000_001 > 3 * 31_360_000_000_000int) by (nonlinear_arith);
    }
}

/// The integer square root exists for every nonnegative number.
pub open spec fn is_sqrt_holds(n: int) -> bool {
    crate::scalar::is_sqrt(n, spec_isqrt(n))
}

/// For a nonnegative `n`, some integer square root exists, so the chosen
/// one satisfies its property.
pub proof fn lemma_isqrt_exists(n: int)
    requires
        0 <= n,
    ensures
        is_sqrt_holds(n),
    decreases n,
{
    if n == 0 {
        assert(crate::scalar::is_sqrt(0, 0));
        let w = choose|r: int| crate::scalar::is_sqrt(0, r);
        assert(crate::scalar::is_sqrt(0, w));
    } else {
        lemma_isqrt_exists(n - 1);
        let r = spec_isqrt(n - 1);
        assert(crate::scalar::is_sqrt(n - 1, r));
        if (r + 1) * (r + 1) <= n {
            assert(n < (r + 2) * (r + 2)) by (nonlinear_arith)
                requires n - 1 < (r + 1) * (r + 1) && r >= 0;
            assert(crate::scalar::is_sqrt(n, r + 1));
            let w = choose|t: int| crate::scalar::is_sqrt(n, t);
            assert(crate::scalar::is_sqrt(n, w));
        } else {
            assert(crate::scalar::is_sqrt(n, r));
            let w = choose|t: int| crate::scalar::is_sqrt(n, t);
            assert(crate::scalar::is_sqrt(n, w));
        }
    }
}

/// Corner world positions stay within a few voxels of the grid.
proof fn lemma_corner_world_bounded(origin: BaseVector, s: i64, cc: (int, int, int))
    requires
        origin.bounded(2_000_000),
        1 <= s <= VOXEL_LIMIT,
        0 <= cc.0 && 0 <= cc.1 && 0 <= cc.2,
        cc.0 * (s as int) <= 3_000_000,
        cc.1 * (s as int) <= 3_000_000,
        cc.2 * (s as int) <= 3_000_000,
    ensures
        spec_corner_world(origin, s, cc).bounded(5_100_000),
        -5_100_000 <= origin.x + cc.0 * s <= 5_100_000,
        -5_100_000 <= origin.y + cc.1 * s <= 5_100_000,
        -5_100_000 <= origin.z + cc.2 * s <= 5_100_000,
{
    assert(cc.0 * s >= 0 && cc.1 * s >= 0 && cc.2 * s >= 0) by (nonlinear_arith)
        requires 0 <= cc.0 && 0 <= cc.1 && 0 <= cc.2 && s >= 1;
}

/// Every index of a nearest-neighbor prefix points at a point of the set.
pub proof fn lemma_knn_prefix_members(pts: Seq<BaseVector>, q: BaseVector, k: nat)
    ensures
        forall|a: int|
            0 <= a < knn_prefix(pts, q, k).len() ==> 0 <= #[trigger] knn_prefix(pts, q, k)[a]
                < pts.len(),
    decreases k,
{
    if k > 0 {
        lemma_knn_prefix_members(pts, q, (k - 1) as nat);
        let p = knn_prefix(pts, q, (k - 1) as nat);
        if p.len() < pts.len() {
            crate::search_tree::lemma_next_nn_valid(pts, q, p);
            let m = crate::search_tree::next_nn(pts, q, p);
            assert(knn_prefix(pts, q, k) == p.push(m));
        }
    }
}

} // verus!
