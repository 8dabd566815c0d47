//! Sparse voxel grid over a point set, keyed by integer cell coordinates.
//!
//! Space is cut into cubes of a fixed edge length anchored at an origin
//! just below the point set's bounding box. Each non-empty cube holds the
//! indices of the points inside it; the cubes are kept in insertion order
//! so that walks over them are deterministic.

use vstd::prelude::*;
use std::collections::HashMap;
use crate::scalar::{div_floor_i64, div_ceil_i64};
use crate::vector::BaseVector;
use crate::bounding_box::BoundingBox;
use crate::point_buffer::{PointBuffer, spec_bb_fold, lemma_bb_fold_contains, lemma_bb_fold_bounded};

verus! {

/// Largest point coordinate magnitude the grid accepts: keeps every cell
/// coordinate inside the packing range.
pub const GRID_COORD_LIMIT: i64 = 500_000;

/// Largest accepted voxel edge length.
pub const VOXEL_LIMIT: i64 = 1_000_000;

/// Packing base for cell coordinates: each of the three coordinates of a
/// stored cell lies in `[0, PACK_BASE)`.
pub const PACK_BASE: i64 = 0x10_0000;

/// A cell of the grid: the points inside one voxel, a cached scalar for
/// the field evaluation, and a mark for extraction passes.
#[derive(Debug, Clone)]
pub struct GridCell {
    /// Indices of the points inside this cell.
    pub point_indices: Vec<usize>,
    /// Cached signed-distance value for this cell.
    pub distance: i64,
    /// Whether an extraction pass has visited this cell.
    pub processed: bool,
}

/// The cell coordinate of `p` in a grid anchored at `origin` with voxel
/// edge `s`: floor division per axis.
pub open spec fn spec_coord(origin: BaseVector, s: i64, p: BaseVector) -> (int, int, int) {
    ((p.x - origin.x) / (s as int), (p.y - origin.y) / (s as int), (p.z - origin.z) / (s as int))
}

/// Every component of the coordinate lies inside the packing range.
pub open spec fn coord_in_range(c: (int, int, int)) -> bool {
    &&& 0 <= c.0 < PACK_BASE as int
    &&& 0 <= c.1 < PACK_BASE as int
    &&& 0 <= c.2 < PACK_BASE as int
}

/// One integer standing for a cell coordinate, written in base `PACK_BASE`.
pub open spec fn spec_pack(c: (int, int, int)) -> int {
    (c.0 * (PACK_BASE as int) + c.1) * (PACK_BASE as int) + c.2
}

/// The key of the cell holding `p`.
pub open spec fn spec_point_key(origin: BaseVector, s: i64, p: BaseVector) -> int {
    spec_pack(spec_coord(origin, s, p))
}

/// The three coordinates a packed key stands for.
pub open spec fn spec_unpack(key: int) -> (int, int, int) {
    let base = PACK_BASE as int;
    ((key / base) / base, (key / base) % base, key % base)
}

/// The indices, in order, of the points among the first `upto` whose cell
/// key is `key`.
pub open spec fn spec_cell_indices(
    pts: Seq<BaseVector>,
    origin: BaseVector,
    s: i64,
    key: int,
    upto: int,
) -> Seq<int>
    decreases upto,
{
    if upto <= 0 {
        Seq::empty()
    } else {
        let prev = spec_cell_indices(pts, origin, s, key, upto - 1);
        if spec_point_key(origin, s, pts[upto - 1]) == key {
            prev.push(upto - 1)
        } else {
            prev
        }
    }
}

/// The cell keys a point sequence creates, in first-appearance order.
pub open spec fn spec_grid_keys(
    pts: Seq<BaseVector>,
    origin: BaseVector,
    s: i64,
    upto: int,
) -> Seq<u64>
    decreases upto,
{
    if upto <= 0 {
        Seq::empty()
    } else {
        let prev = spec_grid_keys(pts, origin, s, upto - 1);
        let k = spec_point_key(origin, s, pts[upto - 1]) as u64;
        if prev.contains(k) {
            prev
        } else {
            prev.push(k)
        }
    }
}

/// Packing cell coordinates is injective on the packing range.
pub proof fn lemma_pack_injective(a: (int, int, int), b: (int, int, int))
    requires
        coord_in_range(a),
        coord_in_range(b),
        spec_pack(a) == spec_pack(b),
    ensures
        a == b,
{
    let base = PACK_BASE as int;
    let ha = a.0 * base + a.1;
    let hb = b.0 * base + b.1;
    assert(ha * base + a.2 == hb * base + b.2);
    assert(ha == hb && a.2 == b.2) by {
        vstd::arithmetic::div_mod::lemma_fundamental_div_mod_converse_div(
            ha * base + a.2, base, ha, a.2);
        vstd::arithmetic::div_mod::lemma_fundamental_div_mod_converse_div(
            hb * base + b.2, base, hb, b.2);
        vstd::arithmetic::div_mod::lemma_fundamental_div_mod_converse_mod(
            ha * base + a.2, base, ha, a.2);
        vstd::arithmetic::div_mod::lemma_fundamental_div_mod_converse_mod(
            hb * base + b.2, base, hb, b.2);
    }
    assert(a.0 == b.0 && a.1 == b.1) by {
        vstd::arithmetic::div_mod::lemma_fundamental_div_mod_converse_div(
            a.0 * base + a.1, base, a.0, a.1);
        vstd::arithmetic::div_mod::lemma_fundamental_div_mod_converse_div(
            b.0 * base + b.1, base, b.0, b.1);
        vstd::arithmetic::div_mod::lemma_fundamental_div_mod_converse_mod(
            a.0 * base + a.1, base, a.0, a.1);
        vstd::arithmetic::div_mod::lemma_fundamental_div_mod_converse_mod(
            b.0 * base + b.1, base, b.0, b.1);
    }
}

/// A sparse voxel grid: non-empty cells in insertion order, with a map
/// from packed cell key to cell position.
pub struct HashGrid {
    /// Packed cell keys, in insertion order, without duplicates.
    pub keys: Vec<u64>,
    /// The cells, parallel to `keys`.
    pub cells: Vec<GridCell>,
    /// Maps each packed key to its position in `keys`.
    pub index: HashMap<u64, usize>,
    /// Voxel edge length.
    pub voxel_size: i64,
    /// Anchor of the grid: the padded minimum corner of the point set.
    pub origin: BaseVector,
    /// The padded bounding box of the point set.
    pub bounding_box: BoundingBox,
    /// Advisory cell counts per axis.
    pub dims: (usize, usize, usize),
}

impl HashGrid {
    /// The grid's bookkeeping is coherent: keys are distinct, in packing
    /// range, and the key map mirrors the key vector.
    pub open spec fn wf(self) -> bool {
        &&& 1 <= self.voxel_size <= VOXEL_LIMIT
        &&& self.origin.bounded(2_000_000)
        &&& self.keys@.len() == self.cells@.len()
        &&& forall|a: int, b: int|
            0 <= a < b < self.keys@.len() ==> self.keys@[a] != self.keys@[b]
        &&& forall|i: int|
            0 <= i < self.keys@.len() ==> 0 <= #[trigger] self.keys@[i]
                < 0x1000_0000_0000_0000
        &&& forall|k: u64| self.index@.contains_key(k) <==> self.keys@.contains(k)
        &&& forall|i: int|
            0 <= i < self.keys@.len() ==> self.index@.contains_key(#[trigger] self.keys@[i])
                && self.index@[self.keys@[i]] == i
    }

    /// The grid sorts exactly the given points into cells: each cell holds,
    /// in order, the indices of the points whose cell key it carries, and
    /// every point's key has a cell.
    pub open spec fn consistent_with(self, pts: Seq<BaseVector>) -> bool {
        &&& forall|i: int|
            0 <= i < self.cells@.len()
                ==> (#[trigger] self.cells@[i]).point_indices@.map_values(|u: usize| u as int)
                    == spec_cell_indices(pts, self.origin, self.voxel_size,
                    self.keys@[i] as int, pts.len() as int)
        &&& forall|idx: int|
            0 <= idx < pts.len() ==> coord_in_range(
                spec_coord(self.origin, self.voxel_size, #[trigger] pts[idx]))
        &&& forall|idx: int|
            0 <= idx < pts.len() ==> self.keys@.contains(
                spec_point_key(self.origin, self.voxel_size, #[trigger] pts[idx]) as u64)
        &&& forall|idx: int|
            0 <= idx < pts.len() ==> {
                let p = #[trigger] pts[idx];
                &&& self.voxel_size <= p.x - self.origin.x <= 1_000_000 + self.voxel_size
                &&& self.voxel_size <= p.y - self.origin.y <= 1_000_000 + self.voxel_size
                &&& self.voxel_size <= p.z - self.origin.z <= 1_000_000 + self.voxel_size
            }
    }

    /// Creates a grid from a point buffer: pads the bounding box by one
    /// voxel, anchors the origin at the padded minimum, and sorts every
    /// point index into its cell.
    pub fn new(points: &PointBuffer, voxel_size: i64) -> (r: Self)
        requires
            points.wf(),
            points.points_bounded(GRID_COORD_LIMIT as int),
            1 <= voxel_size <= VOXEL_LIMIT,
        ensures
            r.wf(),
            r.consistent_with(points.spec_points_seq()),
            r.voxel_size == voxel_size,
            ({
                let bb = spec_bb_fold(points.spec_points_seq());
                &&& r.origin == (BaseVector {
                    x: (bb.min.x - voxel_size) as i64,
                    y: (bb.min.y - voxel_size) as i64,
                    z: (bb.min.z - voxel_size) as i64,
                })
                &&& r.bounding_box == (BoundingBox {
                    min: r.origin,
                    max: BaseVector {
                        x: (bb.max.x + voxel_size) as i64,
                        y: (bb.max.y + voxel_size) as i64,
                        z: (bb.max.z + voxel_size) as i64,
                    },
                    valid: true,
                })
            }),
            forall|i: int|
                0 <= i < r.cells@.len() ==> (#[trigger] r.cells@[i]).distance == 0
                    && !r.cells@[i].processed,
            forall|i: int|
                0 <= i < r.cells@.len()
                    ==> (#[trigger] r.cells@[i]).point_indices@.len() >= 1,
            r.keys@.len() <= points.spec_num_points(),
            ({
                let bb = spec_bb_fold(points.spec_points_seq());
                let s = voxel_size as int;
                r.dims == (
                    (((bb.max.x - bb.min.x + 2 * s) + s - 1) / s + 1) as usize,
                    (((bb.max.y - bb.min.y + 2 * s) + s - 1) / s + 1) as usize,
                    (((bb.max.z - bb.min.z + 2 * s) + s - 1) / s + 1) as usize,
                )
            }),
            r.keys@ == spec_grid_keys(points.spec_points_seq(), r.origin, voxel_size,
                points.spec_num_points()),
    {
        let bb = points.bounding_box();
        proof {
            if points.spec_points_seq().len() > 0 {
                lemma_bb_fold_bounded(points.spec_points_seq(), GRID_COORD_LIMIT as int);
            }
        }
        let minp = BaseVector {
            x: bb.min.x - voxel_size,
            y: bb.min.y - voxel_size,
            z: bb.min.z - voxel_size,
        };
        let maxp = BaseVector {
            x: bb.max.x + voxel_size,
            y: bb.max.y + voxel_size,
            z: bb.max.z + voxel_size,
        };
        let extended_bb = BoundingBox::from_points(minp, maxp);
        let dims = (
            (div_ceil_i64(maxp.x - minp.x, voxel_size) + 1) as usize,
            (div_ceil_i64(maxp.y - minp.y, voxel_size) + 1) as usize,
            (div_ceil_i64(maxp.z - minp.z, voxel_size) + 1) as usize,
        );
        let mut grid = HashGrid {
            keys: Vec::new(),
            cells: Vec::new(),
            index: HashMap::new(),
            voxel_size,
            origin: minp,
            bounding_box: extended_bb,
            dims,
        };
        let n = points.num_points();
        let ghost pts = points.spec_points_seq();
        let mut i: usize = 0;
        while i < n
            invariant
                points.wf(),
                points.points_bounded(GRID_COORD_LIMIT as int),
                pts == points.spec_points_seq(),
                n == pts.len(),
                i <= n,
                grid.wf(),
                grid.keys@.len() <= i,
                grid.keys@ == spec_grid_keys(pts, minp, voxel_size, i as int),
                grid.voxel_size == voxel_size,
                grid.origin == minp,
                grid.bounding_box == extended_bb,
                grid.dims == dims,
                minp.bounded(2_000_000),
                bb == spec_bb_fold(pts),
                n > 0 ==> bb.min.bounded(GRID_COORD_LIMIT as int),
                minp.x == bb.min.x - voxel_size && minp.y == bb.min.y - voxel_size
                    && minp.z == bb.min.z - voxel_size,
                forall|c: int|
                    0 <= c < grid.cells@.len() ==> (#[trigger] grid.cells@[
                        c]).point_indices@.map_values(|u: usize| u as int)
                        == spec_cell_indices(pts, minp, voxel_size, grid.keys@[c] as int,
                        i as int),
                forall|idx: int|
                    0 <= idx < i ==> coord_in_range(
                        spec_coord(minp, voxel_size, #[trigger] pts[idx])),
                forall|idx: int|
                    0 <= idx < i ==> grid.keys@.contains(
                        spec_point_key(minp, voxel_size, #[trigger] pts[idx]) as u64),
                forall|c: int|
                    0 <= c < grid.cells@.len() ==> (#[trigger] grid.cells@[c]).distance == 0
                        && !grid.cells@[c].processed,
                forall|c: int|
                    0 <= c < grid.cells@.len()
                        ==> (#[trigger] grid.cells@[c]).point_indices@.len() >= 1,
            decreases n - i,
        {
            let p = points.get_point(i).unwrap();
            proof {
                lemma_bb_fold_contains(pts);
                assert(pts[i as int] == points.spec_point(i as int));
                lemma_coord_in_range(minp, voxel_size, p, bb);
            }
            let cx = div_floor_i64(p.x - minp.x, voxel_size);
            let cy = div_floor_i64(p.y - minp.y, voxel_size);
            let cz = div_floor_i64(p.z - minp.z, voxel_size);
            proof {
                lemma_pack_fits(cx as int, cy as int, cz as int);
            }
            let key: u64 = ((cx as u64) * (PACK_BASE as u64) + (cy as u64))
                * (PACK_BASE as u64) + (cz as u64);
            proof {
                assert(key as int == spec_point_key(minp, voxel_size, pts[i as int]));
            }
            let ghost old_grid = grid;
            match grid.index.get(&key) {
                Some(pos_ref) => {
                    let pos = *pos_ref;
                    proof {
                        assert(grid.keys@.contains(key));
                        let w = choose|w: int|
                            0 <= w < grid.keys@.len() && grid.keys@[w] == key;
                        assert(grid.index@[grid.keys@[w]] == w);
                        assert(pos == w);
                    }
                    grid.cells[pos].point_indices.push(i);
                    proof {
                        assert forall|c: int| 0 <= c < grid.cells@.len()
                            implies (#[trigger] grid.cells@[c]).point_indices@.map_values(
                                |u: usize| u as int) == spec_cell_indices(pts, minp,
                                voxel_size, grid.keys@[c] as int, i + 1) by {
                            assert(old_grid.cells@[c].point_indices@.map_values(
                                |u: usize| u as int) == spec_cell_indices(pts, minp,
                                voxel_size, old_grid.keys@[c] as int, i as int));
                            if c == pos {
                                assert(grid.cells@[c].point_indices@
                                    == old_grid.cells@[c].point_indices@.push(i));
                                assert(grid.cells@[c].point_indices@.map_values(
                                    |u: usize| u as int) =~= old_grid.cells@[
                                    c].point_indices@.map_values(|u: usize| u as int).push(
                                    i as int));
                            } else {
                                assert(grid.keys@[c] != key);
                                assert(grid.cells@[c] == old_grid.cells@[c]);
                            }
                        }
                    }
                },
                None => {
                    proof {
                        if grid.keys@.contains(key) {
                            let w = choose|w: int|
                                0 <= w < grid.keys@.len() && grid.keys@[w] == key;
                            assert(grid.index@.contains_key(grid.keys@[w]));
                        }
                    }
                    let mut indices: Vec<usize> = Vec::new();
                    indices.push(i);
                    grid.cells.push(GridCell { point_indices: indices, distance: 0, processed: false });
                    let pos = grid.keys.len();
                    grid.keys.push(key);
                    grid.index.insert(key, pos);
                    proof {
                        lemma_cell_indices_empty(pts, minp, voxel_size, key as int, i as int);
                        assert forall|c: int| 0 <= c < grid.cells@.len()
                            implies (#[trigger] grid.cells@[c]).point_indices@.map_values(
                                |u: usize| u as int) == spec_cell_indices(pts, minp,
                                voxel_size, grid.keys@[c] as int, i + 1) by {
                            if c < old_grid.cells@.len() {
                                assert(old_grid.cells@[c].point_indices@.map_values(
                                    |u: usize| u as int) == spec_cell_indices(pts, minp,
                                    voxel_size, old_grid.keys@[c] as int, i as int));
                                assert(grid.keys@[c] == old_grid.keys@[c]);
                                assert(!old_grid.keys@.contains(key));
                                assert(grid.keys@[c] != key);
                                assert(grid.cells@[c] == old_grid.cells@[c]);
                            } else {
                                assert(c == pos as int);
                                assert(grid.keys@[c] == key);
                                assert(grid.cells@[c].point_indices@.map_values(
                                    |u: usize| u as int) =~= Seq::<int>::empty().push(
                                    i as int));
                            }
                        }
                        assert forall|k: u64| grid.index@.contains_key(k)
                            implies grid.keys@.contains(k) by {
                            if k == key {
                                assert(grid.keys@[pos as int] == k);
                            } else {
                                assert(old_grid.index@.contains_key(k));
                                assert(old_grid.keys@.contains(k));
                                let w = choose|w: int|
                                    0 <= w < old_grid.keys@.len() && old_grid.keys@[w] == k;
                                assert(grid.keys@[w] == k);
                            }
                        }
                        assert forall|k: u64| grid.keys@.contains(k)
                            implies grid.index@.contains_key(k) by {
                            let w = choose|w: int|
                                0 <= w < grid.keys@.len() && grid.keys@[w] == k;
                            if w < old_grid.keys@.len() {
                                assert(old_grid.keys@[w] == k);
                                assert(old_grid.keys@.contains(k));
                            }
                        }
                    }
                },
            }
            proof {
                assert(grid.keys@.contains(key));
            }
            i = i + 1;
        }
        proof {
            lemma_bb_fold_contains(pts);
            assert forall|idx: int| 0 <= idx < pts.len() implies {
                let p = #[trigger] pts[idx];
                &&& voxel_size <= p.x - minp.x <= 1_000_000 + voxel_size
                &&& voxel_size <= p.y - minp.y <= 1_000_000 + voxel_size
                &&& voxel_size <= p.z - minp.z <= 1_000_000 + voxel_size
            } by {
                assert(pts[idx] == points.spec_point(idx));
                assert(pts[idx].bounded(GRID_COORD_LIMIT as int));
            }
        }
        grid
    }

    /// Converts a world point to its cell coordinate by floor division.
    pub fn point_to_cell(&self, point: &BaseVector) -> (r: (i64, i64, i64))
        requires
            self.wf(),
            point.bounded(1_000_000_000_000),
        ensures
            (r.0 as int, r.1 as int, r.2 as int) == spec_coord(self.origin, self.voxel_size,
                *point),
    {
        (
            div_floor_i64(point.x - self.origin.x, self.voxel_size),
            div_floor_i64(point.y - self.origin.y, self.voxel_size),
            div_floor_i64(point.z - self.origin.z, self.voxel_size),
        )
    }

    /// Converts a cell coordinate to the world position of its center.
    pub fn cell_to_point(&self, cell: (i64, i64, i64)) -> (r: BaseVector)
        requires
            self.wf(),
            -0x200000 <= cell.0 <= 0x200000,
            -0x200000 <= cell.1 <= 0x200000,
            -0x200000 <= cell.2 <= 0x200000,
        ensures
            r == (BaseVector {
                x: (self.origin.x + cell.0 * self.voxel_size + self.voxel_size / 2) as i64,
                y: (self.origin.y + cell.1 * self.voxel_size + self.voxel_size / 2) as i64,
                z: (self.origin.z + cell.2 * self.voxel_size + self.voxel_size / 2) as i64,
            }),
    {
        proof {
            lemma_cell_world(cell, self.voxel_size);
        }
        let half = self.voxel_size / 2;
        BaseVector {
            x: self.origin.x + cell.0 * self.voxel_size + half,
            y: self.origin.y + cell.1 * self.voxel_size + half,
            z: self.origin.z + cell.2 * self.voxel_size + half,
        }
    }

    /// Converts a cell coordinate to the world position of its minimum
    /// corner.
    pub fn cell_corner(&self, cell: (i64, i64, i64)) -> (r: BaseVector)
        requires
            self.wf(),
            -0x200000 <= cell.0 <= 0x200000,
            -0x200000 <= cell.1 <= 0x200000,
            -0x200000 <= cell.2 <= 0x200000,
        ensures
            r == (BaseVector {
                x: (self.origin.x + cell.0 * self.voxel_size) as i64,
                y: (self.origin.y + cell.1 * self.voxel_size) as i64,
                z: (self.origin.z + cell.2 * self.voxel_size) as i64,
            }),
    {
        proof {
            lemma_cell_world(cell, self.voxel_size);
        }
        BaseVector {
            x: self.origin.x + cell.0 * self.voxel_size,
            y: self.origin.y + cell.1 * self.voxel_size,
            z: self.origin.z + cell.2 * self.voxel_size,
        }
    }

    /// The position of the cell with this coordinate in the key vector,
    /// when there is one.
    pub open spec fn spec_cell_pos(self, cell: (int, int, int)) -> int {
        choose|w: int| 0 <= w < self.keys@.len() && self.keys@[w] as int == spec_pack(cell)
    }

    /// Whether a cell with this coordinate exists.
    pub open spec fn spec_has_cell(self, cell: (int, int, int)) -> bool {
        coord_in_range(cell) && exists|w: int|
            0 <= w < self.keys@.len() && self.keys@[w] as int == spec_pack(cell)
    }

    /// Gets the cell with the given coordinate, when there is one. No cell
    /// is ever created by a read.
    pub fn get_cell(&self, coords: (i64, i64, i64)) -> (r: Option<&GridCell>)
        requires
            self.wf(),
        ensures
            self.spec_has_cell((coords.0 as int, coords.1 as int, coords.2 as int))
                ==> r == Some(&self.cells@[self.spec_cell_pos(
                (coords.0 as int, coords.1 as int, coords.2 as int))]),
            !self.spec_has_cell((coords.0 as int, coords.1 as int, coords.2 as int))
                ==> r is None,
    {
        if !(0 <= coords.0 && coords.0 < PACK_BASE && 0 <= coords.1 && coords.1 < PACK_BASE
            && 0 <= coords.2 && coords.2 < PACK_BASE) {
            return None;
        }
        proof {
            lemma_pack_fits(coords.0 as int, coords.1 as int, coords.2 as int);
        }
        let key: u64 = ((coords.0 as u64) * (PACK_BASE as u64) + (coords.1 as u64))
            * (PACK_BASE as u64) + (coords.2 as u64);
        proof {
            assert(key as int == spec_pack((coords.0 as int, coords.1 as int, coords.2 as int)));
        }
        match self.index.get(&key) {
            Some(pos_ref) => {
                let pos = *pos_ref;
                proof {
                    assert(self.keys@.contains(key));
                    let w = choose|w: int| 0 <= w < self.keys@.len() && self.keys@[w] == key;
                    assert(self.index@[self.keys@[w]] == w);
                    assert(pos == w);
                    let c = (coords.0 as int, coords.1 as int, coords.2 as int);
                    let wp = self.spec_cell_pos(c);
                    assert(self.keys@[wp] as int == spec_pack(c));
                    assert(self.index@[self.keys@[wp]] == wp);
                }
                Some(&self.cells[pos])
            },
            None => {
                proof {
                    let c = (coords.0 as int, coords.1 as int, coords.2 as int);
                    if self.spec_has_cell(c) {
                        let w = choose|w: int|
                            0 <= w < self.keys@.len() && self.keys@[w] as int == spec_pack(c);
                        assert(self.keys@.contains(self.keys@[w]));
                        assert(self.index@.contains_key(self.keys@[w]));
                    }
                }
                None
            },
        }
    }

    /// Stores a cell under the given coordinate: an existing cell is
    /// replaced, and a coordinate without one gains a fresh cell. Only
    /// coordinates inside the packing range can be stored; others are
    /// left absent.
    pub fn set_cell(&mut self, coords: (i64, i64, i64), cell: GridCell)
        requires
            old(self).wf(),
        ensures
            final(self).wf(),
            final(self).voxel_size == old(self).voxel_size,
            final(self).origin == old(self).origin,
            final(self).bounding_box == old(self).bounding_box,
            final(self).dims == old(self).dims,
            old(self).spec_has_cell((coords.0 as int, coords.1 as int, coords.2 as int)) ==> {
                &&& final(self).keys == old(self).keys
                &&& final(self).index == old(self).index
                &&& final(self).cells@ == old(self).cells@.update(
                    old(self).spec_cell_pos(
                        (coords.0 as int, coords.1 as int, coords.2 as int)), cell)
            },
            !old(self).spec_has_cell((coords.0 as int, coords.1 as int, coords.2 as int))
                && coord_in_range((coords.0 as int, coords.1 as int, coords.2 as int)) ==> {
                &&& final(self).keys@ == old(self).keys@.push(
                    spec_pack((coords.0 as int, coords.1 as int, coords.2 as int)) as u64)
                &&& final(self).cells@ == old(self).cells@.push(cell)
                &&& final(self).spec_has_cell(
                    (coords.0 as int, coords.1 as int, coords.2 as int))
                &&& final(self).spec_cell_pos(
                    (coords.0 as int, coords.1 as int, coords.2 as int))
                    == old(self).keys@.len()
            },
            !coord_in_range((coords.0 as int, coords.1 as int, coords.2 as int)) ==> {
                &&& final(self).keys == old(self).keys
                &&& final(self).index == old(self).index
                &&& final(self).cells@ == old(self).cells@
            },
    {
        if !(0 <= coords.0 && coords.0 < PACK_BASE && 0 <= coords.1 && coords.1 < PACK_BASE
            && 0 <= coords.2 && coords.2 < PACK_BASE) {
            return;
        }
        proof {
            lemma_pack_fits(coords.0 as int, coords.1 as int, coords.2 as int);
        }
        let key: u64 = ((coords.0 as u64) * (PACK_BASE as u64) + (coords.1 as u64))
            * (PACK_BASE as u64) + (coords.2 as u64);
        proof {
            assert(key as int == spec_pack((coords.0 as int, coords.1 as int, coords.2 as int)));
        }
        let ghost old_grid = *self;
        let pos_opt = match self.index.get(&key) {
            Some(pos_ref) => Some(*pos_ref),
            None => None,
        };
        match pos_opt {
            Some(pos) => {
                proof {
                    assert(self.keys@.contains(key));
                    let w = choose|w: int| 0 <= w < self.keys@.len() && self.keys@[w] == key;
                    assert(self.index@[self.keys@[w]] == w);
                    let c = (coords.0 as int, coords.1 as int, coords.2 as int);
                    let wp = self.spec_cell_pos(c);
                    assert(self.keys@[wp] as int == spec_pack(c));
                    assert(self.index@[self.keys@[wp]] == wp);
                }
                self.cells[pos] = cell;
            },
            None => {
                proof {
                    let c = (coords.0 as int, coords.1 as int, coords.2 as int);
                    if self.spec_has_cell(c) {
                        let w = choose|w: int|
                            0 <= w < self.keys@.len() && self.keys@[w] as int == spec_pack(c);
                        assert(self.keys@.contains(self.keys@[w]));
                        assert(self.index@.contains_key(self.keys@[w]));
                    }
                }
                let pos = self.keys.len();
                self.cells.push(cell);
                self.keys.push(key);
                self.index.insert(key, pos);
                proof {
                    assert forall|k: u64| self.index@.contains_key(k)
                        implies self.keys@.contains(k) by {
                        if k == key {
                            assert(self.keys@[pos as int] == k);
                        } else {
                            assert(old_grid.index@.contains_key(k));
                            assert(old_grid.keys@.contains(k));
                            let w = choose|w: int|
                                0 <= w < old_grid.keys@.len() && old_grid.keys@[w] == k;
                            assert(self.keys@[w] == k);
                        }
                    }
                    assert forall|k: u64| self.keys@.contains(k)
                        implies self.index@.contains_key(k) by {
                        let w = choose|w: int|
                            0 <= w < self.keys@.len() && self.keys@[w] == k;
                        if w < old_grid.keys@.len() {
                            assert(old_grid.keys@[w] == k);
                            assert(old_grid.keys@.contains(k));
                        }
                    }
                    let c = (coords.0 as int, coords.1 as int, coords.2 as int);
                    assert(self.keys@[pos as int] as int == spec_pack(c));
                    assert(self.spec_has_cell(c));
                    let wp = self.spec_cell_pos(c);
                    assert(self.keys@[wp] as int == spec_pack(c));
                    if wp != pos as int {
                        assert(wp < old_grid.keys@.len());
                        assert(old_grid.keys@[wp] == self.keys@[wp]);
                        assert(old_grid.keys@.contains(self.keys@[wp]));
                        assert(old_grid.index@.contains_key(self.keys@[wp]));
                        assert(old_grid.spec_has_cell(c));
                    }
                }
            },
        }
    }

    /// Returns the number of non-empty cells.
    pub fn num_cells(&self) -> (r: usize)
        ensures
            r == self.cells@.len(),
    {
        self.cells.len()
    }

    /// Returns the voxel edge length.
    pub fn voxel_size(&self) -> (r: i64)
        ensures
            r == self.voxel_size,
    {
        self.voxel_size
    }

    /// Returns the advisory cell counts per axis.
    pub fn dims(&self) -> (r: (usize, usize, usize))
        ensures
            r == self.dims,
    {
        self.dims
    }

    /// Returns the grid origin: the padded minimum corner.
    pub fn origin(&self) -> (r: BaseVector)
        ensures
            r == self.origin,
    {
        self.origin
    }

    /// Returns the padded bounding box of the grid.
    pub fn bounding_box(&self) -> (r: &BoundingBox)
        ensures
            r == &self.bounding_box,
    {
        &self.bounding_box
    }

    /// Returns the coordinates of all non-empty cells, in insertion order.
    pub fn cell_coords(&self) -> (r: Vec<(i64, i64, i64)>)
        requires
            self.wf(),
        ensures
            r@.len() == self.keys@.len(),
            forall|i: int|
                0 <= i < r@.len() ==> spec_pack(
                    ((#[trigger] r@[i]).0 as int, r@[i].1 as int, r@[i].2 as int))
                    == self.keys@[i] as int && coord_in_range(
                    (r@[i].0 as int, r@[i].1 as int, r@[i].2 as int)),
    {
        let m = self.keys.len();
        let mut out: Vec<(i64, i64, i64)> = Vec::new();
        let mut i: usize = 0;
        while i < m
            invariant
                self.wf(),
                m == self.keys@.len(),
                i <= m,
                out@.len() == i,
                forall|j: int|
                    0 <= j < i ==> spec_pack(
                        ((#[trigger] out@[j]).0 as int, out@[j].1 as int, out@[j].2 as int))
                        == self.keys@[j] as int && coord_in_range(
                        (out@[j].0 as int, out@[j].1 as int, out@[j].2 as int)),
            decreases m - i,
        {
            let key = self.keys[i];
            let base = PACK_BASE as u64;
            let cz = key % base;
            let rest = key / base;
            let cy = rest % base;
            let cx = rest / base;
            proof {
                lemma_unpack(key as int);
            }
            out.push((cx as i64, cy as i64, cz as i64));
            i = i + 1;
        }
        out
    }

    /// Returns a reference to the cells, parallel to the packed keys, in
    /// insertion order.
    pub fn cells(&self) -> (r: &Vec<GridCell>)
        ensures
            r == &self.cells,
    {
        &self.cells
    }

    /// Returns the eight corner coordinates of a cell, in the fixed order
    /// the extractor uses: the bottom face counter-clockwise, then the top
    /// face directly above.
    pub fn cell_corners(&self, cell: (i64, i64, i64)) -> (r: [(i64, i64, i64); 8])
        requires
            -0x200000 <= cell.0 <= 0x200000,
            -0x200000 <= cell.1 <= 0x200000,
            -0x200000 <= cell.2 <= 0x200000,
        ensures
            r@ == spec_cell_corners(cell),
    {
        let r = [
            (cell.0, cell.1, cell.2),
            (cell.0 + 1, cell.1, cell.2),
            (cell.0 + 1, cell.1 + 1, cell.2),
            (cell.0, cell.1 + 1, cell.2),
            (cell.0, cell.1, cell.2 + 1),
            (cell.0 + 1, cell.1, cell.2 + 1),
            (cell.0 + 1, cell.1 + 1, cell.2 + 1),
            (cell.0, cell.1 + 1, cell.2 + 1),
        ];
        proof {
            assert(r@ =~= spec_cell_corners(cell));
        }
        r
    }
}

/// The eight corner coordinates of a cell, bottom face counter-clockwise,
/// then the top face directly above.
pub open spec fn spec_cell_corners(cell: (i64, i64, i64)) -> Seq<(i64, i64, i64)> {
    seq![
        (cell.0, cell.1, cell.2),
        ((cell.0 + 1) as i64, cell.1, cell.2),
        ((cell.0 + 1) as i64, (cell.1 + 1) as i64, cell.2),
        (cell.0, (cell.1 + 1) as i64, cell.2),
        (cell.0, cell.1, (cell.2 + 1) as i64),
        ((cell.0 + 1) as i64, cell.1, (cell.2 + 1) as i64),
        ((cell.0 + 1) as i64, (cell.1 + 1) as i64, (cell.2 + 1) as i64),
        (cell.0, (cell.1 + 1) as i64, (cell.2 + 1) as i64),
    ]
}

/// Members of a cell's index list are point indices below `upto` whose
/// cell key is the cell's own.
proof fn lemma_cell_indices_members(
    pts: Seq<BaseVector>,
    origin: BaseVector,
    s: i64,
    key: int,
    upto: int,
)
    ensures
        forall|t: int|
            0 <= t < spec_cell_indices(pts, origin, s, key, upto).len() ==> {
                let idx = #[trigger] spec_cell_indices(pts, origin, s, key, upto)[t];
                0 <= idx < upto && spec_point_key(origin, s, pts[idx]) == key
            },
    decreases upto,
{
    if upto > 0 {
        lemma_cell_indices_members(pts, origin, s, key, upto - 1);
        let cur = spec_cell_indices(pts, origin, s, key, upto);
        let prev = spec_cell_indices(pts, origin, s, key, upto - 1);
        assert forall|t: int| 0 <= t < cur.len() implies {
            let idx = #[trigger] cur[t];
            0 <= idx < upto && spec_point_key(origin, s, pts[idx]) == key
        } by {
            if spec_point_key(origin, s, pts[upto - 1]) == key {
                assert(cur == prev.push(upto - 1));
                if t < prev.len() {
                    assert(cur[t] == prev[t]);
                } else {
                    assert(cur[t] == upto - 1);
                }
            } else {
                assert(cur == prev);
                assert(cur[t] == prev[t]);
            }
        }
    }
}

/// The grid invariant, spelled out: every point index stored in a cell is
/// a valid index into the originating point set, and the cell coordinate
/// recomputed from that point equals the cell's own key.
pub proof fn lemma_grid_invariant(g: HashGrid, pts: Seq<BaseVector>)
    requires
        g.wf(),
        g.consistent_with(pts),
    ensures
        forall|c: int, t: int|
            0 <= c < g.cells@.len() && 0 <= t < (#[trigger] g.cells@[c]).point_indices@.len()
                ==> {
                let idx = #[trigger] g.cells@[c].point_indices@[t];
                &&& 0 <= idx < pts.len()
                &&& spec_point_key(g.origin, g.voxel_size, pts[idx as int])
                    == g.keys@[c] as int
            },
{
    assert forall|c: int, t: int|
        0 <= c < g.cells@.len() && 0 <= t < (#[trigger] g.cells@[c]).point_indices@.len()
            implies {
            let idx = #[trigger] g.cells@[c].point_indices@[t];
            &&& 0 <= idx < pts.len()
            &&& spec_point_key(g.origin, g.voxel_size, pts[idx as int]) == g.keys@[c] as int
        } by {
        lemma_cell_indices_members(pts, g.origin, g.voxel_size, g.keys@[c] as int,
            pts.len() as int);
        let mapped = g.cells@[c].point_indices@.map_values(|u: usize| u as int);
        assert(mapped[t] == g.cells@[c].point_indices@[t] as int);
        assert(mapped == spec_cell_indices(pts, g.origin, g.voxel_size, g.keys@[c] as int,
            pts.len() as int));
    }
}

/// A key that no point among the first `upto` maps to has no indices.
proof fn lemma_cell_indices_empty(
    pts: Seq<BaseVector>,
    origin: BaseVector,
    s: i64,
    key: int,
    upto: int,
)
    requires
        forall|idx: int|
            0 <= idx < upto ==> spec_point_key(origin, s, #[trigger] pts[idx]) != key,
    ensures
        spec_cell_indices(pts, origin, s, key, upto) == Seq::<int>::empty(),
    decreases upto,
{
    if upto > 0 {
        lemma_cell_indices_empty(pts, origin, s, key, upto - 1);
    }
}

/// Packed keys of in-range coordinates fit in sixty bits.
pub proof fn lemma_pack_fits(cx: int, cy: int, cz: int)
    requires
        0 <= cx < PACK_BASE as int,
        0 <= cy < PACK_BASE as int,
        0 <= cz < PACK_BASE as int,
    ensures
        0 <= spec_pack((cx, cy, cz)) < 0x1000_0000_0000_0000,
        0 <= cx * (PACK_BASE as int) + cy < 0x100_0000_0000,
        0 <= (cx * (PACK_BASE as int) + cy) * (PACK_BASE as int) + cz < 0x1000_0000_0000_0000,
{
    assert(PACK_BASE as int == 0x100000int);
    assert(0 <= cx * 0x100000int <= 0xFFFFFint * 0x100000int) by (nonlinear_arith)
        requires 0 <= cx <= 0xFFFFFint;
    assert(0xFFFFFint * 0x100000int == 0xFFFFF00000int);
    let hi = cx * 0x100000int + cy;
    assert(0 <= hi * 0x100000int <= 0xFFFFFFFFFFint * 0x100000int) by (nonlinear_arith)
        requires 0 <= hi <= 0xFFFFFFFFFFint;
    assert(0xFFFFFFFFFFint * 0x100000int == 0xFFFFFFFFFF00000int);
}

proof fn lemma_cell_world(cell: (i64, i64, i64), s: i64)
    requires
        1 <= s <= VOXEL_LIMIT,
        -0x200000 <= cell.0 <= 0x200000,
        -0x200000 <= cell.1 <= 0x200000,
        -0x200000 <= cell.2 <= 0x200000,
    ensures
        -3_000_000_000_000 <= cell.0 * s <= 3_000_000_000_000,
        -3_000_000_000_000 <= cell.1 * s <= 3_000_000_000_000,
        -3_000_000_000_000 <= cell.2 * s <= 3_000_000_000_000,
{
    crate::scalar::lemma_mul_bounds(cell.0 as int, s as int, 0x200000, VOXEL_LIMIT as int);
    crate::scalar::lemma_mul_bounds(cell.1 as int, s as int, 0x200000, VOXEL_LIMIT as int);
    crate::scalar::lemma_mul_bounds(cell.2 as int, s as int, 0x200000, VOXEL_LIMIT as int);
    assert(0x200000 * (VOXEL_LIMIT as int) == 2_097_152_000_000) by (nonlinear_arith);
}

/// A point in the padded box yields a cell coordinate inside the packing
/// range.
proof fn lemma_coord_in_range(origin: BaseVector, s: i64, p: BaseVector, bb: BoundingBox)
    requires
        1 <= s <= VOXEL_LIMIT,
        p.bounded(GRID_COORD_LIMIT as int),
        origin.x == bb.min.x - s && origin.y == bb.min.y - s && origin.z == bb.min.z - s,
        bb.min.x <= p.x && bb.min.y <= p.y && bb.min.z <= p.z,
        bb.min.bounded(GRID_COORD_LIMIT as int),
    ensures
        coord_in_range(spec_coord(origin, s, p)),
{
    lemma_axis_coord_in_range(p.x - origin.x, s);
    lemma_axis_coord_in_range(p.y - origin.y, s);
    lemma_axis_coord_in_range(p.z - origin.z, s);
}

proof fn lemma_axis_coord_in_range(d: int, s: i64)
    requires
        1 <= s <= VOXEL_LIMIT,
        s <= d,
        d <= 2 * GRID_COORD_LIMIT as int + s,
    ensures
        0 <= d / (s as int) < PACK_BASE as int,
{
    let si = s as int;
    vstd::arithmetic::div_mod::lemma_fundamental_div_mod(d, si);
    vstd::arithmetic::div_mod::lemma_mod_division_less_than_divisor(d, si);
    let q = d / si;
    assert(si * q == d - d % si);
    assert(q >= 0) by (nonlinear_arith)
        requires si >= 1 && si * q > -si;
    assert(q <= 2 * GRID_COORD_LIMIT as int + 1) by {
        assert(si * q <= d);
        assert(d <= 2 * GRID_COORD_LIMIT as int + si);
        assert(si * (2 * GRID_COORD_LIMIT as int + 2) > 2 * GRID_COORD_LIMIT as int + si)
            by (nonlinear_arith)
            requires si >= 1;
        assert(q < 2 * GRID_COORD_LIMIT as int + 2) by (nonlinear_arith)
            requires si >= 1 && si * q <= d && d < si * (2 * GRID_COORD_LIMIT as int + 2);
    }
}

/// Unpacking a packed key recovers its three coordinates.
pub proof fn lemma_unpack(key: int)
    requires
        0 <= key < 0x1000_0000_0000_0000,
    ensures
        ({
            let base = PACK_BASE as int;
            let cz = key % base;
            let rest = key / base;
            let cy = rest % base;
            let cx = rest / base;
            spec_pack((cx, cy, cz)) == key && 0 <= cz < base && 0 <= cy < base && 0 <= cx
                < base
        }),
{
    let base = PACK_BASE as int;
    vstd::arithmetic::div_mod::lemma_fundamental_div_mod(key, base);
    vstd::arithmetic::div_mod::lemma_mod_division_less_than_divisor(key, base);
    let rest = key / base;
    vstd::arithmetic::div_mod::lemma_fundamental_div_mod(rest, base);
    vstd::arithmetic::div_mod::lemma_mod_division_less_than_divisor(rest, base);
    assert(rest >= 0) by (nonlinear_arith)
        requires base >= 1 && base * rest == key - key % base && key - key % base > -base;
    let cx = rest / base;
    assert(cx >= 0) by (nonlinear_arith)
        requires base >= 1 && base * cx == rest - rest % base && rest - rest % base > -base;
    assert(cx < base) by {
        assert(base * rest <= key);
        assert(base * cx <= rest);
        if cx >= base {
            assert(rest >= base * base) by (nonlinear_arith)
                requires base >= 1 && base * cx <= rest && cx >= base;
            assert(key >= base * (base * base)) by (nonlinear_arith)
                requires base >= 1 && base * rest <= key && rest >= base * base;
            assert(base * (base * base) == 0x1000_0000_0000_0000) by (nonlinear_arith)
                requires base == 0x10_0000;
        }
    }
    assert((cx * base + rest % base) * base + key % base == key) by (nonlinear_arith)
        requires
            key == base * (key / base) + key % base
                && rest == base * cx + rest % base && rest == key / base;
}

} // verus!
