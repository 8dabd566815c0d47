//! Point buffer: 3D point coordinates with optional per-point attributes.

use vstd::prelude::*;
use vstd::slice::{slice_index_get, slice_to_vec};
use crate::channel::Channel;
use crate::vector::BaseVector;
use crate::bounding_box::BoundingBox;

verus! {

/// A buffer of 3D points with optional normals, colors and intensities.
/// Coordinates are fixed-point `i64` values; attached normals are in
/// `NORMAL_SCALE` units.
#[derive(Debug, Clone)]
pub struct PointBuffer {
    /// Point coordinates, three values per point.
    pub points: Channel<i64>,
    /// Optional per-point normals, three values per point.
    pub normals: Option<Channel<i64>>,
    /// Optional per-point colors, three or four values per point.
    pub colors: Option<Channel<u8>>,
    /// Optional per-point intensities, one value per point.
    pub intensities: Option<Channel<i64>>,
}

impl PointBuffer {
    /// The buffer's channels are coherent: every attribute channel has one
    /// element per point.
    pub open spec fn wf(self) -> bool {
        &&& self.points.wf()
        &&& self.points.width == 3
        &&& self.normals matches Some(n)
            ==> n.wf() && n.width == 3 && n.spec_len() == self.spec_num_points()
        &&& self.colors matches Some(c)
            ==> c.wf() && (c.width == 3 || c.width == 4) && c.spec_len()
                == self.spec_num_points()
        &&& self.intensities matches Some(i)
            ==> i.wf() && i.width == 1 && i.spec_len() == self.spec_num_points()
    }

    /// Number of points held.
    pub open spec fn spec_num_points(self) -> int {
        self.points.spec_len()
    }

    /// The point at index `i`.
    pub open spec fn spec_point(self, i: int) -> BaseVector {
        BaseVector {
            x: self.points.data@[3 * i],
            y: self.points.data@[3 * i + 1],
            z: self.points.data@[3 * i + 2],
        }
    }

    /// All points, in index order.
    pub open spec fn spec_points_seq(self) -> Seq<BaseVector> {
        Seq::new(self.spec_num_points() as nat, |i: int| self.spec_point(i))
    }

    /// The normal at index `i`, when normals are attached.
    pub open spec fn spec_normal(self, i: int) -> BaseVector {
        let n = self.normals->Some_0;
        BaseVector { x: n.data@[3 * i], y: n.data@[3 * i + 1], z: n.data@[3 * i + 2] }
    }

    /// Every point's coordinates lie within `bound` in magnitude.
    pub open spec fn points_bounded(self, bound: int) -> bool {
        forall|i: int|
            0 <= i < self.spec_num_points() ==> (#[trigger] self.spec_point(i)).bounded(bound)
    }

    /// Creates an empty point buffer.
    pub fn new() -> (r: Self)
        ensures
            r.wf(),
            r.spec_num_points() == 0,
            r.normals is None && r.colors is None && r.intensities is None,
    {
        PointBuffer {
            points: Channel::with_width(3),
            normals: None,
            colors: None,
            intensities: None,
        }
    }

    /// Creates a point buffer from a vector of points.
    pub fn from_points(points: Vec<BaseVector>) -> (r: Self)
        requires
            3 * points@.len() <= usize::MAX,
        ensures
            r.wf(),
            r.spec_num_points() == points@.len(),
            forall|i: int| 0 <= i < points@.len() ==> r.spec_point(i) == points@[i],
            r.normals is None && r.colors is None && r.intensities is None,
    {
        let data = flatten_points(&points);
        PointBuffer {
            points: Channel::new(data, 3),
            normals: None,
            colors: None,
            intensities: None,
        }
    }

    /// Creates a point buffer from raw coordinate data, three values per
    /// point.
    pub fn from_raw(data: Vec<i64>) -> (r: Self)
        requires
            data@.len() as int % 3 == 0,
        ensures
            r.wf(),
            r.points.data@ == data@,
            r.normals is None && r.colors is None && r.intensities is None,
    {
        PointBuffer {
            points: Channel::new(data, 3),
            normals: None,
            colors: None,
            intensities: None,
        }
    }

    /// Returns the number of points in the buffer.
    pub fn num_points(&self) -> (r: usize)
        requires
            self.wf(),
        ensures
            r == self.spec_num_points(),
    {
        self.points.len()
    }

    /// Returns true if the buffer holds no points.
    pub fn is_empty(&self) -> (r: bool)
        requires
            self.wf(),
        ensures
            r == (self.spec_num_points() == 0),
    {
        self.points.is_empty()
    }

    /// Gets the point at the given index.
    pub fn get_point(&self, index: usize) -> (r: Option<BaseVector>)
        requires
            self.wf(),
        ensures
            index < self.spec_num_points() ==> r == Some(self.spec_point(index as int)),
            index >= self.spec_num_points() ==> r is None,
    {
        match self.points.get(index) {
            Some(s) => Some(BaseVector {
                x: *slice_index_get(s, 0),
                y: *slice_index_get(s, 1),
                z: *slice_index_get(s, 2),
            }),
            None => None,
        }
    }

    /// Returns all points as a vector, in index order.
    pub fn points(&self) -> (r: Vec<BaseVector>)
        requires
            self.wf(),
        ensures
            r@ == self.spec_points_seq(),
    {
        let n = self.num_points();
        let mut out: Vec<BaseVector> = Vec::new();
        let mut i: usize = 0;
        while i < n
            invariant
                self.wf(),
                n == self.spec_num_points(),
                i <= n,
                out@.len() == i,
                forall|j: int| 0 <= j < i ==> out@[j] == self.spec_point(j),
            decreases n - i,
        {
            let p = self.get_point(i);
            match p {
                Some(v) => out.push(v),
                None => (),
            }
            i = i + 1;
        }
        proof {
            assert(out@ =~= self.spec_points_seq());
        }
        out
    }

    /// Returns a reference to the raw point data.
    pub fn point_data(&self) -> (r: &[i64])
        ensures
            r@ == self.points.data@,
    {
        self.points.data()
    }

    /// Replaces the point array; attributes are left as they stand.
    pub fn set_points(&mut self, points: Vec<BaseVector>)
        requires
            3 * points@.len() <= usize::MAX,
        ensures
            final(self).points.wf(),
            final(self).points.width == 3,
            final(self).points.spec_len() == points@.len(),
            forall|i: int| 0 <= i < points@.len() ==> final(self).spec_point(i) == points@[i],
            final(self).normals == old(self).normals,
            final(self).colors == old(self).colors,
            final(self).intensities == old(self).intensities,
    {
        let data = flatten_points(&points);
        self.points = Channel::new(data, 3);
    }

    /// Returns true if the buffer has normals attached.
    pub fn has_normals(&self) -> (r: bool)
        ensures
            r == (self.normals is Some),
    {
        self.normals.is_some()
    }

    /// Gets the normal at the given index, when normals are attached.
    pub fn get_normal(&self, index: usize) -> (r: Option<BaseVector>)
        requires
            self.wf(),
        ensures
            self.normals is Some && index < self.spec_num_points()
                ==> r == Some(self.spec_normal(index as int)),
            self.normals is None || index >= self.spec_num_points() ==> r is None,
    {
        match &self.normals {
            Some(ch) => match ch.get(index) {
                Some(s) => Some(BaseVector {
                    x: *slice_index_get(s, 0),
                    y: *slice_index_get(s, 1),
                    z: *slice_index_get(s, 2),
                }),
                None => None,
            },
            None => None,
        }
    }

    /// Returns all normals as a vector, when normals are attached.
    pub fn normals(&self) -> (r: Option<Vec<BaseVector>>)
        requires
            self.wf(),
        ensures
            self.normals is Some ==> (r matches Some(v) && v@.len() == self.spec_num_points()
                && forall|i: int|
                    0 <= i < self.spec_num_points() ==> v@[i] == self.spec_normal(i)),
            self.normals is None ==> r is None,
    {
        if self.normals.is_none() {
            return None;
        }
        let n = self.num_points();
        let mut out: Vec<BaseVector> = Vec::new();
        let mut i: usize = 0;
        while i < n
            invariant
                self.wf(),
                self.normals is Some,
                n == self.spec_num_points(),
                i <= n,
                out@.len() == i,
                forall|j: int| 0 <= j < i ==> out@[j] == self.spec_normal(j),
            decreases n - i,
        {
            match self.get_normal(i) {
                Some(v) => out.push(v),
                None => (),
            }
            i = i + 1;
        }
        Some(out)
    }

    /// Returns a reference to the raw normal data, when attached.
    pub fn normal_data(&self) -> (r: Option<&[i64]>)
        ensures
            self.normals matches Some(n) ==> (r matches Some(s) && s@ == n.data@),
            self.normals is None ==> r is None,
    {
        match &self.normals {
            Some(n) => Some(n.data()),
            None => None,
        }
    }

    /// Attaches one normal per point.
    pub fn set_normals(&mut self, normals: Vec<BaseVector>)
        requires
            old(self).wf(),
            normals@.len() == old(self).spec_num_points(),
            3 * normals@.len() <= usize::MAX,
        ensures
            final(self).wf(),
            final(self).normals is Some,
            final(self).spec_num_points() == old(self).spec_num_points(),
            forall|i: int|
                0 <= i < normals@.len() ==> final(self).spec_normal(i) == normals@[i],
            final(self).points == old(self).points,
            final(self).colors == old(self).colors,
            final(self).intensities == old(self).intensities,
    {
        let data = flatten_points(&normals);
        self.normals = Some(Channel::new(data, 3));
    }

    /// Attaches normals from raw data, three values per point.
    pub fn set_normals_raw(&mut self, data: Vec<i64>)
        requires
            old(self).wf(),
            data@.len() as int % 3 == 0,
            data@.len() as int / 3 == old(self).spec_num_points(),
        ensures
            final(self).wf(),
            final(self).normals matches Some(n) && n.data@ == data@,
            final(self).points == old(self).points,
            final(self).colors == old(self).colors,
            final(self).intensities == old(self).intensities,
    {
        self.normals = Some(Channel::new(data, 3));
    }

    /// Returns true if the buffer has colors attached.
    pub fn has_colors(&self) -> (r: bool)
        ensures
            r == (self.colors is Some),
    {
        self.colors.is_some()
    }

    /// Gets the color at the given index, when colors are attached.
    pub fn get_color(&self, index: usize) -> (r: Option<&[u8]>)
        requires
            self.wf(),
        ensures
            self.colors matches Some(c) ==> index < self.spec_num_points()
                ==> (r matches Some(s) && s@ == c.spec_element(index as int)),
            self.colors is None || index >= self.spec_num_points() ==> r is None,
    {
        match &self.colors {
            Some(c) => c.get(index),
            None => None,
        }
    }

    /// Returns the color channel width, when colors are attached.
    pub fn color_width(&self) -> (r: Option<usize>)
        ensures
            self.colors matches Some(c) ==> r == Some(c.width),
            self.colors is None ==> r is None,
    {
        match &self.colors {
            Some(c) => Some(c.width()),
            None => None,
        }
    }

    /// Attaches one color per point.
    pub fn set_colors(&mut self, data: Vec<u8>, width: usize)
        requires
            old(self).wf(),
            width == 3 || width == 4,
            data@.len() as int % width as int == 0,
            data@.len() as int / width as int == old(self).spec_num_points(),
        ensures
            final(self).wf(),
            final(self).colors matches Some(c) && c.data@ == data@ && c.width == width,
            final(self).points == old(self).points,
            final(self).normals == old(self).normals,
            final(self).intensities == old(self).intensities,
    {
        self.colors = Some(Channel::new(data, width));
    }

    /// Returns true if the buffer has intensities attached.
    pub fn has_intensities(&self) -> (r: bool)
        ensures
            r == (self.intensities is Some),
    {
        self.intensities.is_some()
    }

    /// Gets the intensity at the given index, when attached.
    pub fn get_intensity(&self, index: usize) -> (r: Option<i64>)
        requires
            self.wf(),
        ensures
            self.intensities matches Some(c) ==> index < self.spec_num_points()
                ==> r == Some(c.data@[index as int]),
            self.intensities is None || index >= self.spec_num_points() ==> r is None,
    {
        match &self.intensities {
            Some(c) => match c.get(index) {
                Some(s) => {
                    proof {
                        assert(c.spec_element(index as int)[0] == c.data@[index as int]);
                    }
                    Some(*slice_index_get(s, 0))
                },
                None => None,
            },
            None => None,
        }
    }

    /// Attaches one intensity per point.
    pub fn set_intensities(&mut self, data: Vec<i64>)
        requires
            old(self).wf(),
            data@.len() == old(self).spec_num_points(),
        ensures
            final(self).wf(),
            final(self).intensities matches Some(c) && c.data@ == data@,
            final(self).points == old(self).points,
            final(self).normals == old(self).normals,
            final(self).colors == old(self).colors,
    {
        proof {
            let l = data@.len() as int;
            assert(l == l * 1 + 0) by (nonlinear_arith);
            vstd::arithmetic::div_mod::lemma_fundamental_div_mod_converse_mod(l, 1, l, 0);
            vstd::arithmetic::div_mod::lemma_fundamental_div_mod_converse_div(l, 1, l, 0);
        }
        self.intensities = Some(Channel::new(data, 1));
    }

    /// Computes the bounding box of all points, by expanding an empty box
    /// with each point in index order.
    pub fn bounding_box(&self) -> (r: BoundingBox)
        requires
            self.wf(),
        ensures
            r == spec_bb_fold(self.spec_points_seq()),
    {
        let n = self.num_points();
        let mut bb = BoundingBox::new();
        let mut i: usize = 0;
        while i < n
            invariant
                self.wf(),
                n == self.spec_num_points(),
                i <= n,
                bb == spec_bb_fold(self.spec_points_seq().subrange(0, i as int)),
            decreases n - i,
        {
            match self.get_point(i) {
                Some(p) => {
                    bb.expand(p);
                },
                None => (),
            }
            proof {
                assert(self.spec_points_seq().subrange(0, i + 1 as int).drop_last()
                    =~= self.spec_points_seq().subrange(0, i as int));
            }
            i = i + 1;
        }
        proof {
            assert(self.spec_points_seq().subrange(0, n as int) =~= self.spec_points_seq());
        }
        bb
    }

    /// Creates a copy of this buffer with equal contents.
    pub fn clone_buffer(&self) -> (r: Self)
        requires
            self.wf(),
        ensures
            r.points.data@ == self.points.data@,
            r.points.width == self.points.width,
            old_opt_eq(r.normals, self.normals),
            old_opt_eq_u8(r.colors, self.colors),
            old_opt_eq(r.intensities, self.intensities),
            r.wf(),
    {
        PointBuffer {
            points: clone_channel(&self.points),
            normals: match &self.normals {
                Some(c) => Some(clone_channel(c)),
                None => None,
            },
            colors: match &self.colors {
                Some(c) => Some(clone_channel_u8(c)),
                None => None,
            },
            intensities: match &self.intensities {
                Some(c) => Some(clone_channel(c)),
                None => None,
            },
        }
    }
}

/// The two optional channels hold equal data.
pub open spec fn old_opt_eq(a: Option<Channel<i64>>, b: Option<Channel<i64>>) -> bool {
    match (a, b) {
        (Some(x), Some(y)) => x.data@ == y.data@ && x.width == y.width,
        (None, None) => true,
        _ => false,
    }
}

/// The two optional byte channels hold equal data.
pub open spec fn old_opt_eq_u8(a: Option<Channel<u8>>, b: Option<Channel<u8>>) -> bool {
    match (a, b) {
        (Some(x), Some(y)) => x.data@ == y.data@ && x.width == y.width,
        (None, None) => true,
        _ => false,
    }
}

fn clone_channel(c: &Channel<i64>) -> (r: Channel<i64>)
    ensures
        r.data@ == c.data@,
        r.width == c.width,
{
    Channel { data: slice_to_vec(c.data.as_slice()), width: c.width }
}

fn clone_channel_u8(c: &Channel<u8>) -> (r: Channel<u8>)
    ensures
        r.data@ == c.data@,
        r.width == c.width,
{
    Channel { data: slice_to_vec(c.data.as_slice()), width: c.width }
}

/// The bounding box folded over a point sequence in order.
pub open spec fn spec_bb_fold(s: Seq<BaseVector>) -> BoundingBox
    decreases s.len(),
{
    if s.len() == 0 {
        BoundingBox {
            min: BaseVector { x: 0, y: 0, z: 0 },
            max: BaseVector { x: 0, y: 0, z: 0 },
            valid: false,
        }
    } else {
        spec_bb_fold(s.drop_last()).spec_expand(s.last())
    }
}

/// Every point of the sequence lies inside its folded bounding box.
pub proof fn lemma_bb_fold_contains(s: Seq<BaseVector>)
    ensures
        s.len() > 0 ==> spec_bb_fold(s).valid,
        forall|i: int|
            0 <= i < s.len() ==> {
                let bb = spec_bb_fold(s);
                let p = #[trigger] s[i];
                bb.min.x <= p.x <= bb.max.x && bb.min.y <= p.y <= bb.max.y && bb.min.z <= p.z
                    <= bb.max.z
            },
    decreases s.len(),
{
    if s.len() > 0 {
        let pre = s.drop_last();
        lemma_bb_fold_contains(pre);
        let bb = spec_bb_fold(s);
        assert forall|i: int| 0 <= i < s.len() implies {
            let p = #[trigger] s[i];
            bb.min.x <= p.x <= bb.max.x && bb.min.y <= p.y <= bb.max.y && bb.min.z <= p.z
                <= bb.max.z
        } by {
            if i < s.len() - 1 {
                assert(s[i] == pre[i]);
            } else {
                assert(s[i] == s.last());
            }
        }
    }
}

/// The folded bounding box's corners come from the points themselves: a box
/// over points within a bound stays within that bound.
pub proof fn lemma_bb_fold_bounded(s: Seq<BaseVector>, bound: int)
    requires
        forall|i: int| 0 <= i < s.len() ==> (#[trigger] s[i]).bounded(bound),
        0 <= bound,
    ensures
        s.len() > 0 ==> spec_bb_fold(s).bounded(bound),
    decreases s.len(),
{
    if s.len() > 0 {
        let pre = s.drop_last();
        assert forall|i: int| 0 <= i < pre.len() implies (#[trigger] pre[i]).bounded(bound) by {
            assert(pre[i] == s[i]);
        }
        lemma_bb_fold_bounded(pre, bound);
        let p = s.last();
        assert(p == s[s.len() - 1]);
        assert(p.bounded(bound));
        let bb0 = spec_bb_fold(pre);
        assert(spec_bb_fold(s) == bb0.spec_expand(p));
        if pre.len() == 0 {
            assert(bb0.spec_expand(p) == (BoundingBox { min: p, max: p, valid: true }));
        } else {
            assert(bb0.bounded(bound));
        }
    }
}

pub(crate) fn flatten_points(points: &Vec<BaseVector>) -> (r: Vec<i64>)
    requires
        3 * points@.len() <= usize::MAX,
    ensures
        r@.len() == 3 * points@.len(),
        r@.len() as int % 3 == 0,
        forall|i: int|
            0 <= i < points@.len() ==> r@[3 * i] == (#[trigger] points@[i]).x
                && r@[3 * i + 1] == points@[i].y && r@[3 * i + 2] == points@[i].z,
{
    let n = points.len();
    let mut data: Vec<i64> = Vec::new();
    let mut i: usize = 0;
    while i < n
        invariant
            n == points@.len(),
            3 * n <= usize::MAX,
            i <= n,
            data@.len() == 3 * i,
            forall|j: int|
                0 <= j < i ==> data@[3 * j] == (#[trigger] points@[j]).x
                    && data@[3 * j + 1] == points@[j].y && data@[3 * j + 2] == points@[j].z,
        decreases n - i,
    {
        let p = points[i];
        data.push(p.x);
        data.push(p.y);
        data.push(p.z);
        i = i + 1;
    }
    proof {
        lemma_triple_len(data@.len() as int, points@.len() as int);
    }
    data
}

/// A length of the form `3 * k` is divisible by three, with quotient `k`.
pub proof fn lemma_triple_len(len: int, k: int)
    requires
        0 <= k,
        len == 3 * k,
    ensures
        len % 3 == 0,
        len / 3 == k,
{
    assert(len == k * 3 + 0) by (nonlinear_arith)
        requires len == 3 * k;
    vstd::arithmetic::div_mod::lemma_fundamental_div_mod_converse_mod(len, 3, k, 0);
    vstd::arithmetic::div_mod::lemma_fundamental_div_mod_converse_div(len, 3, k, 0);
}

} // verus!
