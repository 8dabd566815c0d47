//! Mesh buffer: triangle mesh vertices, faces and optional attributes.

use vstd::prelude::*;
use vstd::slice::slice_index_get;
use crate::channel::Channel;
use crate::scalar::NORMAL_SCALE;
use crate::vector::{BaseVector, COORD_LIMIT};
use crate::bounding_box::BoundingBox;
use crate::point_buffer::spec_bb_fold;

verus! {

/// A buffer for triangle mesh data: vertex positions, face index triples,
/// and optional normals, colors, texture coordinates and material indices.
#[derive(Debug, Clone)]
pub struct MeshBuffer {
    /// Vertex positions, three values per vertex.
    pub vertices: Channel<i64>,
    /// Face indices, three per face, each an index into the vertices.
    pub faces: Channel<u32>,
    /// Optional per-vertex normals, in `NORMAL_SCALE` units.
    pub vertex_normals: Option<Channel<i64>>,
    /// Optional per-face normals, in `NORMAL_SCALE` units.
    pub face_normals: Option<Channel<i64>>,
    /// Optional per-vertex colors, three or four values each.
    pub vertex_colors: Option<Channel<u8>>,
    /// Optional per-face colors, three or four values each.
    pub face_colors: Option<Channel<u8>>,
    /// Optional per-vertex texture coordinates, two values each.
    pub texture_coords: Option<Channel<i64>>,
    /// Optional per-face material indices.
    pub face_materials: Option<Channel<u32>>,
}

impl MeshBuffer {
    /// The buffer's channels are coherent: per-vertex channels have one
    /// element per vertex and per-face channels one per face.
    pub open spec fn wf(self) -> bool {
        &&& self.vertices.wf()
        &&& self.vertices.width == 3
        &&& self.faces.wf()
        &&& self.faces.width == 3
        &&& self.vertex_normals matches Some(c)
            ==> c.wf() && c.width == 3 && c.spec_len() == self.spec_num_vertices()
        &&& self.face_normals matches Some(c)
            ==> c.wf() && c.width == 3 && c.spec_len() == self.spec_num_faces()
        &&& self.vertex_colors matches Some(c)
            ==> c.wf() && (c.width == 3 || c.width == 4) && c.spec_len()
                == self.spec_num_vertices()
        &&& self.face_colors matches Some(c)
            ==> c.wf() && (c.width == 3 || c.width == 4) && c.spec_len()
                == self.spec_num_faces()
        &&& self.texture_coords matches Some(c)
            ==> c.wf() && c.width == 2 && c.spec_len() == self.spec_num_vertices()
        &&& self.face_materials matches Some(c)
            ==> c.wf() && c.width == 1 && c.spec_len() == self.spec_num_faces()
    }

    /// Number of vertices held.
    pub open spec fn spec_num_vertices(self) -> int {
        self.vertices.spec_len()
    }

    /// Number of faces held.
    pub open spec fn spec_num_faces(self) -> int {
        self.faces.spec_len()
    }

    /// The vertex at index `i`.
    pub open spec fn spec_vertex(self, i: int) -> BaseVector {
        BaseVector {
            x: self.vertices.data@[3 * i],
            y: self.vertices.data@[3 * i + 1],
            z: self.vertices.data@[3 * i + 2],
        }
    }

    /// All vertices, in index order.
    pub open spec fn spec_vertices_seq(self) -> Seq<BaseVector> {
        Seq::new(self.spec_num_vertices() as nat, |i: int| self.spec_vertex(i))
    }

    /// The vertex indices of face `i`.
    pub open spec fn spec_face(self, i: int) -> (int, int, int) {
        (
            self.faces.data@[3 * i] as int,
            self.faces.data@[3 * i + 1] as int,
            self.faces.data@[3 * i + 2] as int,
        )
    }

    /// Every face refers only to existing vertices.
    pub open spec fn faces_valid(self) -> bool {
        forall|i: int|
            0 <= i < self.spec_num_faces() ==> {
                let f = #[trigger] self.spec_face(i);
                f.0 < self.spec_num_vertices() && f.1 < self.spec_num_vertices() && f.2
                    < self.spec_num_vertices()
            }
    }

    /// Every vertex coordinate lies within `bound` in magnitude.
    pub open spec fn vertices_bounded(self, bound: int) -> bool {
        forall|i: int|
            0 <= i < self.spec_num_vertices()
                ==> (#[trigger] self.spec_vertex(i)).bounded(bound)
    }

    /// The normal of face `i` as computed from its vertices: the rescaled
    /// cross product of the two edges leaving the face's first vertex.
    pub open spec fn spec_face_normal(self, i: int) -> BaseVector {
        let f = self.spec_face(i);
        let a = self.spec_vertex(f.0);
        let b = self.spec_vertex(f.1);
        let c = self.spec_vertex(f.2);
        b.spec_sub(a).spec_cross(c.spec_sub(a)).spec_normalized()
    }

    /// The stored normal of face `i`, when face normals are attached.
    pub open spec fn spec_stored_face_normal(self, i: int) -> BaseVector {
        let c = self.face_normals->Some_0;
        BaseVector { x: c.data@[3 * i], y: c.data@[3 * i + 1], z: c.data@[3 * i + 2] }
    }

    /// The stored normal of vertex `i`, when vertex normals are attached.
    pub open spec fn spec_stored_vertex_normal(self, i: int) -> BaseVector {
        let c = self.vertex_normals->Some_0;
        BaseVector { x: c.data@[3 * i], y: c.data@[3 * i + 1], z: c.data@[3 * i + 2] }
    }

    /// Every stored face normal lies within `NORMAL_SCALE` in magnitude.
    pub open spec fn face_normals_bounded(self) -> bool {
        forall|i: int|
            0 <= i < self.spec_num_faces()
                ==> (#[trigger] self.spec_stored_face_normal(i)).bounded(NORMAL_SCALE as int)
    }

    /// Creates an empty mesh buffer.
    pub fn new() -> (r: Self)
        ensures
            r.wf(),
            r.spec_num_vertices() == 0,
            r.spec_num_faces() == 0,
            r.vertex_normals is None && r.face_normals is None,
            r.vertex_colors is None && r.face_colors is None,
            r.texture_coords is None && r.face_materials is None,
    {
        MeshBuffer {
            vertices: Channel::with_width(3),
            faces: Channel::with_width(3),
            vertex_normals: None,
            face_normals: None,
            vertex_colors: None,
            face_colors: None,
            texture_coords: None,
            face_materials: None,
        }
    }

    /// Returns the number of vertices.
    pub fn num_vertices(&self) -> (r: usize)
        requires
            self.wf(),
        ensures
            r == self.spec_num_vertices(),
    {
        self.vertices.len()
    }

    /// Returns the number of faces.
    pub fn num_faces(&self) -> (r: usize)
        requires
            self.wf(),
        ensures
            r == self.spec_num_faces(),
    {
        self.faces.len()
    }

    /// Returns true if the mesh has vertices.
    pub fn has_vertices(&self) -> (r: bool)
        requires
            self.wf(),
        ensures
            r == (self.spec_num_vertices() > 0),
    {
        !self.vertices.is_empty()
    }

    /// Returns true if the mesh has faces.
    pub fn has_faces(&self) -> (r: bool)
        requires
            self.wf(),
        ensures
            r == (self.spec_num_faces() > 0),
    {
        !self.faces.is_empty()
    }

    /// Gets the vertex at the given index.
    pub fn get_vertex(&self, index: usize) -> (r: Option<BaseVector>)
        requires
            self.wf(),
        ensures
            index < self.spec_num_vertices() ==> r == Some(self.spec_vertex(index as int)),
            index >= self.spec_num_vertices() ==> r is None,
    {
        match self.vertices.get(index) {
            Some(s) => Some(BaseVector {
                x: *slice_index_get(s, 0),
                y: *slice_index_get(s, 1),
                z: *slice_index_get(s, 2),
            }),
            None => None,
        }
    }

    /// Returns all vertices as a vector, in index order.
    pub fn vertices(&self) -> (r: Vec<BaseVector>)
        requires
            self.wf(),
        ensures
            r@ == self.spec_vertices_seq(),
    {
        let n = self.num_vertices();
        let mut out: Vec<BaseVector> = Vec::new();
        let mut i: usize = 0;
        while i < n
            invariant
                self.wf(),
                n == self.spec_num_vertices(),
                i <= n,
                out@.len() == i,
                forall|j: int| 0 <= j < i ==> out@[j] == self.spec_vertex(j),
            decreases n - i,
        {
            match self.get_vertex(i) {
                Some(v) => out.push(v),
                None => (),
            }
            i = i + 1;
        }
        proof {
            assert(out@ =~= self.spec_vertices_seq());
        }
        out
    }

    /// Returns a reference to the raw vertex data.
    pub fn vertex_data(&self) -> (r: &[i64])
        ensures
            r@ == self.vertices.data@,
    {
        self.vertices.data()
    }

    /// Replaces the vertex array; attributes are left as they stand.
    pub fn set_vertices(&mut self, vertices: Vec<BaseVector>)
        requires
            3 * vertices@.len() <= usize::MAX,
        ensures
            final(self).vertices.wf(),
            final(self).vertices.width == 3,
            final(self).spec_num_vertices() == vertices@.len(),
            forall|i: int|
                0 <= i < vertices@.len() ==> final(self).spec_vertex(i) == vertices@[i],
            unchanged_but_vertices(*old(self), *final(self)),
    {
        let data = crate::point_buffer::flatten_points(&vertices);
        self.vertices = Channel::new(data, 3);
    }

    /// Replaces the vertex array from raw data, three values per vertex.
    pub fn set_vertices_raw(&mut self, data: Vec<i64>)
        requires
            data@.len() as int % 3 == 0,
        ensures
            final(self).vertices.wf(),
            final(self).vertices.width == 3,
            final(self).vertices.data@ == data@,
            unchanged_but_vertices(*old(self), *final(self)),
    {
        self.vertices = Channel::new(data, 3);
    }

    /// Gets the vertex indices of the face at the given index.
    pub fn get_face(&self, index: usize) -> (r: Option<[u32; 3]>)
        requires
            self.wf(),
        ensures
            index < self.spec_num_faces() ==> (r matches Some(f) && {
                let t = self.spec_face(index as int);
                f[0] == t.0 && f[1] == t.1 && f[2] == t.2
            }),
            index >= self.spec_num_faces() ==> r is None,
    {
        match self.faces.get(index) {
            Some(s) => Some([
                *slice_index_get(s, 0),
                *slice_index_get(s, 1),
                *slice_index_get(s, 2),
            ]),
            None => None,
        }
    }

    /// Returns all faces as index triples, in order.
    pub fn faces(&self) -> (r: Vec<[u32; 3]>)
        requires
            self.wf(),
        ensures
            r@.len() == self.spec_num_faces(),
            forall|i: int|
                0 <= i < self.spec_num_faces() ==> {
                    let t = self.spec_face(i);
                    let f = #[trigger] r@[i];
                    f[0] == t.0 && f[1] == t.1 && f[2] == t.2
                },
    {
        let n = self.num_faces();
        let mut out: Vec<[u32; 3]> = Vec::new();
        let mut i: usize = 0;
        while i < n
            invariant
                self.wf(),
                n == self.spec_num_faces(),
                i <= n,
                out@.len() == i,
                forall|j: int|
                    0 <= j < i ==> {
                        let t = self.spec_face(j);
                        let f = #[trigger] out@[j];
                        f[0] == t.0 && f[1] == t.1 && f[2] == t.2
                    },
            decreases n - i,
        {
            match self.get_face(i) {
                Some(f) => out.push(f),
                None => (),
            }
            i = i + 1;
        }
        out
    }

    /// Returns a reference to the raw face index data.
    pub fn face_data(&self) -> (r: &[u32])
        ensures
            r@ == self.faces.data@,
    {
        self.faces.data()
    }

    /// Replaces the face index array, three indices per face.
    pub fn set_faces(&mut self, faces: Vec<u32>)
        requires
            faces@.len() as int % 3 == 0,
        ensures
            final(self).faces.wf(),
            final(self).faces.width == 3,
            final(self).faces.data@ == faces@,
            unchanged_but_faces(*old(self), *final(self)),
    {
        self.faces = Channel::new(faces, 3);
    }

    /// Returns true if the mesh has vertex normals.
    pub fn has_vertex_normals(&self) -> (r: bool)
        ensures
            r == (self.vertex_normals is Some),
    {
        self.vertex_normals.is_some()
    }

    /// Gets the vertex normal at the given index, when attached.
    pub fn get_vertex_normal(&self, index: usize) -> (r: Option<BaseVector>)
        requires
            self.wf(),
        ensures
            self.vertex_normals is Some && index < self.spec_num_vertices()
                ==> r == Some(self.spec_stored_vertex_normal(index as int)),
            self.vertex_normals is None || index >= self.spec_num_vertices() ==> r is None,
    {
        match &self.vertex_normals {
            Some(ch) => match ch.get(index) {
                Some(s) => Some(BaseVector {
                    x: *slice_index_get(s, 0),
                    y: *slice_index_get(s, 1),
                    z: *slice_index_get(s, 2),
                }),
                None => None,
            },
            None => None,
        }
    }

    /// Returns a reference to the raw vertex normal data, when attached.
    pub fn vertex_normal_data(&self) -> (r: Option<&[i64]>)
        ensures
            self.vertex_normals matches Some(c) ==> (r matches Some(s) && s@ == c.data@),
            self.vertex_normals is None ==> r is None,
    {
        match &self.vertex_normals {
            Some(c) => Some(c.data()),
            None => None,
        }
    }

    /// Attaches one normal per vertex.
    pub fn set_vertex_normals(&mut self, normals: Vec<BaseVector>)
        requires
            old(self).wf(),
            normals@.len() == old(self).spec_num_vertices(),
            3 * normals@.len() <= usize::MAX,
        ensures
            final(self).wf(),
            final(self).vertex_normals is Some,
            forall|i: int|
                0 <= i < normals@.len()
                    ==> final(self).spec_stored_vertex_normal(i) == normals@[i],
            unchanged_but_vertex_normals(*old(self), *final(self)),
    {
        let data = crate::point_buffer::flatten_points(&normals);
        self.vertex_normals = Some(Channel::new(data, 3));
    }

    /// Attaches vertex normals from raw data, three values per vertex.
    pub fn set_vertex_normals_raw(&mut self, data: Vec<i64>)
        requires
            old(self).wf(),
            data@.len() as int % 3 == 0,
            data@.len() as int / 3 == old(self).spec_num_vertices(),
        ensures
            final(self).wf(),
            final(self).vertex_normals matches Some(c) && c.data@ == data@,
            unchanged_but_vertex_normals(*old(self), *final(self)),
    {
        self.vertex_normals = Some(Channel::new(data, 3));
    }

    /// Returns true if the mesh has face normals.
    pub fn has_face_normals(&self) -> (r: bool)
        ensures
            r == (self.face_normals is Some),
    {
        self.face_normals.is_some()
    }

    /// Gets the face normal at the given index, when attached.
    pub fn get_face_normal(&self, index: usize) -> (r: Option<BaseVector>)
        requires
            self.wf(),
        ensures
            self.face_normals is Some && index < self.spec_num_faces()
                ==> r == Some(self.spec_stored_face_normal(index as int)),
            self.face_normals is None || index >= self.spec_num_faces() ==> r is None,
    {
        match &self.face_normals {
            Some(ch) => match ch.get(index) {
                Some(s) => Some(BaseVector {
                    x: *slice_index_get(s, 0),
                    y: *slice_index_get(s, 1),
                    z: *slice_index_get(s, 2),
                }),
                None => None,
            },
            None => None,
        }
    }

    /// Attaches face normals from raw data, three values per face.
    pub fn set_face_normals_raw(&mut self, data: Vec<i64>)
        requires
            old(self).wf(),
            data@.len() as int % 3 == 0,
            data@.len() as int / 3 == old(self).spec_num_faces(),
        ensures
            final(self).wf(),
            final(self).face_normals matches Some(c) && c.data@ == data@,
            unchanged_but_face_normals(*old(self), *final(self)),
    {
        self.face_normals = Some(Channel::new(data, 3));
    }

    /// Returns true if the mesh has vertex colors.
    pub fn has_vertex_colors(&self) -> (r: bool)
        ensures
            r == (self.vertex_colors is Some),
    {
        self.vertex_colors.is_some()
    }

    /// Gets the vertex color at the given index, when attached.
    pub fn get_vertex_color(&self, index: usize) -> (r: Option<&[u8]>)
        requires
            self.wf(),
        ensures
            self.vertex_colors matches Some(c) ==> index < self.spec_num_vertices()
                ==> (r matches Some(s) && s@ == c.spec_element(index as int)),
            self.vertex_colors is None || index >= self.spec_num_vertices() ==> r is None,
    {
        match &self.vertex_colors {
            Some(c) => c.get(index),
            None => None,
        }
    }

    /// Returns the vertex color width, when colors are attached.
    pub fn vertex_color_width(&self) -> (r: Option<usize>)
        ensures
            self.vertex_colors matches Some(c) ==> r == Some(c.width),
            self.vertex_colors is None ==> r is None,
    {
        match &self.vertex_colors {
            Some(c) => Some(c.width()),
            None => None,
        }
    }

    /// Attaches one color per vertex.
    pub fn set_vertex_colors(&mut self, data: Vec<u8>, width: usize)
        requires
            old(self).wf(),
            width == 3 || width == 4,
            data@.len() as int % width as int == 0,
            data@.len() as int / width as int == old(self).spec_num_vertices(),
        ensures
            final(self).wf(),
            final(self).vertex_colors matches Some(c) && c.data@ == data@ && c.width == width,
            unchanged_but_vertex_colors(*old(self), *final(self)),
    {
        self.vertex_colors = Some(Channel::new(data, width));
    }

    /// Returns true if the mesh has face colors.
    pub fn has_face_colors(&self) -> (r: bool)
        ensures
            r == (self.face_colors is Some),
    {
        self.face_colors.is_some()
    }

    /// Gets the face color at the given index, when attached.
    pub fn get_face_color(&self, index: usize) -> (r: Option<&[u8]>)
        requires
            self.wf(),
        ensures
            self.face_colors matches Some(c) ==> index < self.spec_num_faces()
                ==> (r matches Some(s) && s@ == c.spec_element(index as int)),
            self.face_colors is None || index >= self.spec_num_faces() ==> r is None,
    {
        match &self.face_colors {
            Some(c) => c.get(index),
            None => None,
        }
    }

    /// Attaches one color per face.
    pub fn set_face_colors(&mut self, data: Vec<u8>, width: usize)
        requires
            old(self).wf(),
            width == 3 || width == 4,
            data@.len() as int % width as int == 0,
            data@.len() as int / width as int == old(self).spec_num_faces(),
        ensures
            final(self).wf(),
            final(self).face_colors matches Some(c) && c.data@ == data@ && c.width == width,
            unchanged_but_face_colors(*old(self), *final(self)),
    {
        self.face_colors = Some(Channel::new(data, width));
    }

    /// Returns true if the mesh has texture coordinates.
    pub fn has_texture_coords(&self) -> (r: bool)
        ensures
            r == (self.texture_coords is Some),
    {
        self.texture_coords.is_some()
    }

    /// Gets the texture coordinates at the given vertex index, when attached.
    pub fn get_texture_coord(&self, index: usize) -> (r: Option<(i64, i64)>)
        requires
            self.wf(),
        ensures
            self.texture_coords matches Some(c) ==> index < self.spec_num_vertices()
                ==> r == Some((c.data@[2 * index], c.data@[2 * index + 1])),
            self.texture_coords is None || index >= self.spec_num_vertices() ==> r is None,
    {
        match &self.texture_coords {
            Some(c) => match c.get(index) {
                Some(s) => Some((*slice_index_get(s, 0), *slice_index_get(s, 1))),
                None => None,
            },
            None => None,
        }
    }

    /// Attaches texture coordinates, two values per vertex.
    pub fn set_texture_coords(&mut self, data: Vec<i64>)
        requires
            old(self).wf(),
            data@.len() as int % 2 == 0,
            data@.len() as int / 2 == old(self).spec_num_vertices(),
        ensures
            final(self).wf(),
            final(self).texture_coords matches Some(c) && c.data@ == data@,
            unchanged_but_texture_coords(*old(self), *final(self)),
    {
        self.texture_coords = Some(Channel::new(data, 2));
    }

    /// Returns true if the mesh has face material indices.
    pub fn has_face_materials(&self) -> (r: bool)
        ensures
            r == (self.face_materials is Some),
    {
        self.face_materials.is_some()
    }

    /// Gets the material index of the face at the given index, when attached.
    pub fn get_face_material(&self, index: usize) -> (r: Option<u32>)
        requires
            self.wf(),
        ensures
            self.face_materials matches Some(c) ==> index < self.spec_num_faces()
                ==> r == Some(c.data@[index as int]),
            self.face_materials is None || index >= self.spec_num_faces() ==> r is None,
    {
        match &self.face_materials {
            Some(c) => match c.get(index) {
                Some(s) => {
                    proof {
                        assert(c.spec_element(index as int)[0] == c.data@[index as int]);
                    }
                    Some(*slice_index_get(s, 0))
                },
                None => None,
            },
            None => None,
        }
    }

    /// Attaches one material index per face.
    pub fn set_face_materials(&mut self, data: Vec<u32>)
        requires
            old(self).wf(),
            data@.len() == old(self).spec_num_faces(),
        ensures
            final(self).wf(),
            final(self).face_materials matches Some(c) && c.data@ == data@,
            unchanged_but_face_materials(*old(self), *final(self)),
    {
        proof {
            let l = data@.len() as int;
            assert(l == l * 1 + 0) by (nonlinear_arith);
            vstd::arithmetic::div_mod::lemma_fundamental_div_mod_converse_mod(l, 1, l, 0);
            vstd::arithmetic::div_mod::lemma_fundamental_div_mod_converse_div(l, 1, l, 0);
        }
        self.face_materials = Some(Channel::new(data, 1));
    }

    /// Computes the bounding box of all vertices, by expanding an empty box
    /// with each vertex in index order.
    pub fn bounding_box(&self) -> (r: BoundingBox)
        requires
            self.wf(),
        ensures
            r == spec_bb_fold(self.spec_vertices_seq()),
    {
        let n = self.num_vertices();
        let mut bb = BoundingBox::new();
        let mut i: usize = 0;
        while i < n
            invariant
                self.wf(),
                n == self.spec_num_vertices(),
                i <= n,
                bb == spec_bb_fold(self.spec_vertices_seq().subrange(0, i as int)),
            decreases n - i,
        {
            match self.get_vertex(i) {
                Some(p) => {
                    bb.expand(p);
                },
                None => (),
            }
            proof {
                assert(self.spec_vertices_seq().subrange(0, i + 1 as int).drop_last()
                    =~= self.spec_vertices_seq().subrange(0, i as int));
            }
            i = i + 1;
        }
        proof {
            assert(self.spec_vertices_seq().subrange(0, n as int) =~= self.spec_vertices_seq());
        }
        bb
    }

    /// Computes one normal per face from the vertex positions: the rescaled
    /// cross product of the two edges leaving each face's first vertex.
    pub fn compute_face_normals(&mut self)
        requires
            old(self).wf(),
            old(self).faces_valid(),
            old(self).vertices_bounded(COORD_LIMIT as int),
        ensures
            final(self).wf(),
            final(self).face_normals is Some,
            final(self).spec_num_faces() == old(self).spec_num_faces(),
            forall|i: int|
                0 <= i < old(self).spec_num_faces()
                    ==> final(self).spec_stored_face_normal(i)
                        == old(self).spec_face_normal(i),
            final(self).face_normals_bounded(),
            unchanged_but_face_normals(*old(self), *final(self)),
    {
        let n = self.num_faces();
        let flen = self.faces.data.len();
        proof {
            vstd::arithmetic::div_mod::lemma_fundamental_div_mod(flen as int, 3);
            vstd::arithmetic::div_mod::lemma_mod_division_less_than_divisor(flen as int, 3);
            assert(3 * n <= usize::MAX);
        }
        let mut data: Vec<i64> = Vec::new();
        let mut i: usize = 0;
        while i < n
            invariant
                self.wf(),
                self.faces_valid(),
                self.vertices_bounded(COORD_LIMIT as int),
                self == old(self),
                n == self.spec_num_faces(),
                3 * n <= usize::MAX,
                i <= n,
                data@.len() == 3 * i,
                forall|j: int|
                    0 <= j < i ==> {
                        let fnj = #[trigger] self.spec_face_normal(j);
                        data@[3 * j] == fnj.x && data@[3 * j + 1] == fnj.y && data@[3 * j + 2]
                            == fnj.z
                    },
                forall|j: int|
                    0 <= j < i ==> (#[trigger] self.spec_face_normal(j)).bounded(
                        NORMAL_SCALE as int),
            decreases n - i,
        {
            let f = self.get_face(i).unwrap();
            let a = self.get_vertex(f[0] as usize).unwrap();
            let b = self.get_vertex(f[1] as usize).unwrap();
            let c = self.get_vertex(f[2] as usize).unwrap();
            let e1 = BaseVector { x: b.x - a.x, y: b.y - a.y, z: b.z - a.z };
            let e2 = BaseVector { x: c.x - a.x, y: c.y - a.y, z: c.z - a.z };
            let cr = e1.cross(&e2);
            let nrm = cr.normalized();
            proof {
                if cr.spec_length2() == 0 {
                    assert(nrm == cr);
                    assert(spec_isqrt(cr.spec_length2()) * spec_isqrt(cr.spec_length2())
                        <= cr.spec_length2() || true);
                    lemma_zero_length_vector(cr);
                }
            }
            data.push(nrm.x);
            data.push(nrm.y);
            data.push(nrm.z);
            i = i + 1;
        }
        proof {
            crate::point_buffer::lemma_triple_len(data@.len() as int, n as int);
        }
        self.face_normals = Some(Channel::new(data, 3));
        proof {
            assert forall|i: int| 0 <= i < self.spec_num_faces()
                implies (#[trigger] self.spec_stored_face_normal(i)).bounded(
                    NORMAL_SCALE as int) by {
                assert(self.spec_stored_face_normal(i) == old(self).spec_face_normal(i));
            }
        }
    }
}

/// The vertex indices of face `i` in a flat face-index sequence.
pub open spec fn spec_face_of(faces: Seq<u32>, i: int) -> (int, int, int) {
    (faces[3 * i] as int, faces[3 * i + 1] as int, faces[3 * i + 2] as int)
}

/// The normal stored at index `i` of a flat normal-component sequence.
pub open spec fn spec_normal_of(fns: Seq<i64>, i: int) -> BaseVector {
    BaseVector { x: fns[3 * i], y: fns[3 * i + 1], z: fns[3 * i + 2] }
}

/// Componentwise sum of the face normals incident to vertex `v` among the
/// first `upto` faces, one term per incident corner.
pub open spec fn spec_normal_sum(faces: Seq<u32>, fns: Seq<i64>, v: int, upto: int) -> (
    int,
    int,
    int,
)
    decreases upto,
{
    if upto <= 0 {
        (0, 0, 0)
    } else {
        let prev = spec_normal_sum(faces, fns, v, upto - 1);
        let f = spec_face_of(faces, upto - 1);
        let n = spec_normal_of(fns, upto - 1);
        (
            prev.0 + (if f.0 == v { n.x as int } else { 0 })
                + (if f.1 == v { n.x as int } else { 0 })
                + (if f.2 == v { n.x as int } else { 0 }),
            prev.1 + (if f.0 == v { n.y as int } else { 0 })
                + (if f.1 == v { n.y as int } else { 0 })
                + (if f.2 == v { n.y as int } else { 0 }),
            prev.2 + (if f.0 == v { n.z as int } else { 0 })
                + (if f.1 == v { n.z as int } else { 0 })
                + (if f.2 == v { n.z as int } else { 0 }),
        )
    }
}

/// How many corners among the first `upto` faces are the vertex `v`.
pub open spec fn spec_incidence(faces: Seq<u32>, v: int, upto: int) -> int
    decreases upto,
{
    if upto <= 0 {
        0
    } else {
        let f = spec_face_of(faces, upto - 1);
        spec_incidence(faces, v, upto - 1) + (if f.0 == v {
            1int
        } else {
            0
        }) + (if f.1 == v {
            1int
        } else {
            0
        }) + (if f.2 == v {
            1int
        } else {
            0
        })
    }
}

impl MeshBuffer {
    /// The vertex normal that averaging the incident stored face normals
    /// yields: the rescaled mean, or the positive z axis for a vertex with
    /// no incident face.
    pub open spec fn spec_vertex_normal_result(self, v: int) -> BaseVector {
        let faces = self.faces.data@;
        let fns = self.face_normals->Some_0.data@;
        let nf = self.spec_num_faces();
        let s = spec_normal_sum(faces, fns, v, nf);
        let c = spec_incidence(faces, v, nf);
        if c > 0 {
            (BaseVector { x: (s.0 / c) as i64, y: (s.1 / c) as i64, z: (s.2 / c) as i64 })
                .spec_normalized()
        } else {
            BaseVector { x: 0, y: 0, z: NORMAL_SCALE }
        }
    }

    /// Computes one normal per vertex by averaging the normals of its
    /// incident faces; face normals are computed first when missing.
    pub fn compute_vertex_normals(&mut self)
        requires
            old(self).wf(),
            old(self).faces_valid(),
            old(self).vertices_bounded(COORD_LIMIT as int),
            old(self).face_normals is Some ==> old(self).face_normals_bounded(),
            old(self).spec_num_faces() <= 1_000_000_000,
        ensures
            final(self).wf(),
            final(self).vertex_normals is Some,
            final(self).face_normals is Some,
            old(self).face_normals is Some
                ==> final(self).face_normals == old(self).face_normals,
            old(self).face_normals is None ==> forall|i: int|
                0 <= i < old(self).spec_num_faces()
                    ==> final(self).spec_stored_face_normal(i)
                        == old(self).spec_face_normal(i),
            forall|v: int|
                0 <= v < old(self).spec_num_vertices()
                    ==> final(self).spec_stored_vertex_normal(v)
                        == final(self).spec_vertex_normal_result(v),
            final(self).vertices == old(self).vertices,
            final(self).faces == old(self).faces,
            final(self).vertex_colors == old(self).vertex_colors,
            final(self).face_colors == old(self).face_colors,
            final(self).texture_coords == old(self).texture_coords,
            final(self).face_materials == old(self).face_materials,
    {
        if self.face_normals.is_none() {
            self.compute_face_normals();
        }
        proof {
            assert forall|i: int| 0 <= i < self.spec_num_faces() implies {
                let f = #[trigger] self.spec_face(i);
                f.0 < self.spec_num_vertices() && f.1 < self.spec_num_vertices() && f.2
                    < self.spec_num_vertices()
            } by {
                assert(self.spec_face(i) == old(self).spec_face(i));
                assert(old(self).spec_face(i).0 < old(self).spec_num_vertices());
            }
        }
        let nf = self.num_faces();
        let nv = self.num_vertices();
        let ghost faces_seq = self.faces.data@;
        let ghost fns_seq = self.face_normals->Some_0.data@;
        let mut sums: Vec<BaseVector> = Vec::new();
        let mut counts: Vec<usize> = Vec::new();
        let mut v0: usize = 0;
        while v0 < nv
            invariant
                v0 <= nv,
                sums@.len() == v0,
                counts@.len() == v0,
                forall|v: int| 0 <= v < v0
                    ==> #[trigger] sums@[v] == (BaseVector { x: 0i64, y: 0i64, z: 0i64 }),
                forall|v: int| 0 <= v < v0 ==> #[trigger] counts@[v] == 0usize,
            decreases nv - v0,
        {
            sums.push(BaseVector { x: 0, y: 0, z: 0 });
            counts.push(0);
            v0 = v0 + 1;
        }
        let mut j: usize = 0;
        while j < nf
            invariant
                self.wf(),
                self.faces_valid(),
                self.face_normals is Some,
                self.face_normals_bounded(),
                faces_seq == self.faces.data@,
                fns_seq == self.face_normals->Some_0.data@,
                nf == self.spec_num_faces(),
                nv == self.spec_num_vertices(),
                nf <= 1_000_000_000,
                j <= nf,
                sums@.len() == nv,
                counts@.len() == nv,
                forall|v: int| 0 <= v < nv ==> {
                    let s = spec_normal_sum(faces_seq, fns_seq, v, j as int);
                    let e = #[trigger] sums@[v];
                    e.x == s.0 && e.y == s.1 && e.z == s.2
                },
                forall|v: int|
                    0 <= v < nv ==> #[trigger] counts@[v] == spec_incidence(
                        faces_seq, v, j as int),
                forall|v: int|
                    0 <= v < nv ==> (#[trigger] sums@[v]).bounded(3072 * (j as int)),
                forall|v: int| 0 <= v < nv ==> #[trigger] counts@[v] <= 3 * (j as int),
            decreases nf - j,
        {
            let f = self.get_face(j).unwrap();
            let n = self.get_face_normal(j).unwrap();
            proof {
                assert(self.spec_stored_face_normal(j as int).bounded(NORMAL_SCALE as int));
                assert(spec_normal_of(fns_seq, j as int) == self.spec_stored_face_normal(
                    j as int));
                assert(spec_face_of(faces_seq, j as int) == self.spec_face(j as int));
            }
            let ghost prev_sums = sums@;
            let ghost prev_counts = counts@;
            let a = f[0] as usize;
            let b = f[1] as usize;
            let c = f[2] as usize;
            let sa = sums[a];
            sums[a] = BaseVector { x: sa.x + n.x, y: sa.y + n.y, z: sa.z + n.z };
            counts[a] = counts[a] + 1;
            let sb = sums[b];
            sums[b] = BaseVector { x: sb.x + n.x, y: sb.y + n.y, z: sb.z + n.z };
            counts[b] = counts[b] + 1;
            let sc = sums[c];
            sums[c] = BaseVector { x: sc.x + n.x, y: sc.y + n.y, z: sc.z + n.z };
            counts[c] = counts[c] + 1;
            proof {
                assert forall|v: int| 0 <= v < nv implies {
                    let s = spec_normal_sum(faces_seq, fns_seq, v, j + 1);
                    let e = #[trigger] sums@[v];
                    &&& e.x == s.0 && e.y == s.1 && e.z == s.2
                    &&& counts@[v] == spec_incidence(faces_seq, v, j + 1)
                    &&& e.bounded(3072 * (j + 1))
                    &&& counts@[v] <= 3 * (j + 1)
                } by {
                    assert(prev_sums[v].x == spec_normal_sum(faces_seq, fns_seq, v, j as int).0);
                    assert(prev_counts[v] == spec_incidence(faces_seq, v, j as int));
                }
            }
            j = j + 1;
        }
        let mut data: Vec<i64> = Vec::new();
        let mut v: usize = 0;
        while v < nv
            invariant
                self.wf(),
                self.face_normals is Some,
                faces_seq == self.faces.data@,
                fns_seq == self.face_normals->Some_0.data@,
                nf == self.spec_num_faces(),
                nv == self.spec_num_vertices(),
                nf <= 1_000_000_000,
                v <= nv,
                sums@.len() == nv,
                counts@.len() == nv,
                forall|w: int| 0 <= w < nv ==> {
                    let s = spec_normal_sum(faces_seq, fns_seq, w, nf as int);
                    let e = #[trigger] sums@[w];
                    e.x == s.0 && e.y == s.1 && e.z == s.2
                },
                forall|w: int|
                    0 <= w < nv ==> #[trigger] counts@[w] == spec_incidence(
                        faces_seq, w, nf as int),
                forall|w: int|
                    0 <= w < nv ==> (#[trigger] sums@[w]).bounded(3072 * (nf as int)),
                forall|w: int| 0 <= w < nv ==> #[trigger] counts@[w] <= 3 * (nf as int),
                data@.len() == 3 * v,
                forall|w: int|
                    0 <= w < v ==> {
                        let r = #[trigger] self.spec_vertex_normal_result(w);
                        data@[3 * w] == r.x && data@[3 * w + 1] == r.y && data@[3 * w + 2]
                            == r.z
                    },
            decreases nv - v,
        {
            let cnt = counts[v];
            if cnt > 0 {
                let s = sums[v];
                proof {
                    crate::scalar::lemma_div_shrinks(s.x as int, cnt as int);
                    crate::scalar::lemma_div_shrinks(s.y as int, cnt as int);
                    crate::scalar::lemma_div_shrinks(s.z as int, cnt as int);
                }
                let avg = BaseVector {
                    x: crate::scalar::div_floor_i64(s.x, cnt as i64),
                    y: crate::scalar::div_floor_i64(s.y, cnt as i64),
                    z: crate::scalar::div_floor_i64(s.z, cnt as i64),
                };
                let out = avg.normalized();
                data.push(out.x);
                data.push(out.y);
                data.push(out.z);
            } else {
                data.push(0);
                data.push(0);
                data.push(NORMAL_SCALE);
            }
            v = v + 1;
        }
        proof {
            crate::point_buffer::lemma_triple_len(data@.len() as int, nv as int);
        }
        let ghost pre = *self;
        let ghost data_seq = data@;
        self.vertex_normals = Some(Channel::new(data, 3));
        proof {
            assert forall|w: int| 0 <= w < nv
                implies #[trigger] self.spec_stored_vertex_normal(w)
                    == self.spec_vertex_normal_result(w) by {
                let r = pre.spec_vertex_normal_result(w);
                assert(data_seq[3 * w] == r.x && data_seq[3 * w + 1] == r.y
                    && data_seq[3 * w + 2] == r.z);
                assert(pre.faces.data@ == self.faces.data@);
                assert(pre.face_normals->Some_0.data@ == self.face_normals->Some_0.data@);
                assert(pre.spec_num_faces() == self.spec_num_faces());
                assert(pre.spec_vertex_normal_result(w) == self.spec_vertex_normal_result(w));
                assert(self.spec_stored_vertex_normal(w) == (BaseVector {
                    x: data_seq[3 * w],
                    y: data_seq[3 * w + 1],
                    z: data_seq[3 * w + 2],
                }));
            }
        }
    }
}

proof fn lemma_zero_length_vector(v: BaseVector)
    requires
        v.spec_length2() == 0,
    ensures
        v.x == 0 && v.y == 0 && v.z == 0,
{
    assert(v.x * v.x >= 0 && v.y * v.y >= 0 && v.z * v.z >= 0) by (nonlinear_arith);
    assert(v.x == 0) by (nonlinear_arith)
        requires v.x * v.x == 0;
    assert(v.y == 0) by (nonlinear_arith)
        requires v.y * v.y == 0;
    assert(v.z == 0) by (nonlinear_arith)
        requires v.z * v.z == 0;
}

use crate::scalar::spec_isqrt;

/// All fields of the two buffers agree, except the vertices.
pub open spec fn unchanged_but_vertices(a: MeshBuffer, b: MeshBuffer) -> bool {
    a.faces == b.faces && a.vertex_normals == b.vertex_normals && a.face_normals
        == b.face_normals && a.vertex_colors == b.vertex_colors && a.face_colors
        == b.face_colors && a.texture_coords == b.texture_coords && a.face_materials
        == b.face_materials
}

/// All fields of the two buffers agree, except the faces.
pub open spec fn unchanged_but_faces(a: MeshBuffer, b: MeshBuffer) -> bool {
    a.vertices == b.vertices && a.vertex_normals == b.vertex_normals && a.face_normals
        == b.face_normals && a.vertex_colors == b.vertex_colors && a.face_colors
        == b.face_colors && a.texture_coords == b.texture_coords && a.face_materials
        == b.face_materials
}

/// All fields of the two buffers agree, except the vertex normals.
pub open spec fn unchanged_but_vertex_normals(a: MeshBuffer, b: MeshBuffer) -> bool {
    a.vertices == b.vertices && a.faces == b.faces && a.face_normals == b.face_normals
        && a.vertex_colors == b.vertex_colors && a.face_colors == b.face_colors
        && a.texture_coords == b.texture_coords && a.face_materials == b.face_materials
}

/// All fields of the two buffers agree, except the face normals.
pub open spec fn unchanged_but_face_normals(a: MeshBuffer, b: MeshBuffer) -> bool {
    a.vertices == b.vertices && a.faces == b.faces && a.vertex_normals == b.vertex_normals
        && a.vertex_colors == b.vertex_colors && a.face_colors == b.face_colors
        && a.texture_coords == b.texture_coords && a.face_materials == b.face_materials
}

/// All fields of the two buffers agree, except the vertex colors.
pub open spec fn unchanged_but_vertex_colors(a: MeshBuffer, b: MeshBuffer) -> bool {
    a.vertices == b.vertices && a.faces == b.faces && a.vertex_normals == b.vertex_normals
        && a.face_normals == b.face_normals && a.face_colors == b.face_colors
        && a.texture_coords == b.texture_coords && a.face_materials == b.face_materials
}

/// All fields of the two buffers agree, except the face colors.
pub open spec fn unchanged_but_face_colors(a: MeshBuffer, b: MeshBuffer) -> bool {
    a.vertices == b.vertices && a.faces == b.faces && a.vertex_normals == b.vertex_normals
        && a.face_normals == b.face_normals && a.vertex_colors == b.vertex_colors
        && a.texture_coords == b.texture_coords && a.face_materials == b.face_materials
}

/// All fields of the two buffers agree, except the texture coordinates.
pub open spec fn unchanged_but_texture_coords(a: MeshBuffer, b: MeshBuffer) -> bool {
    a.vertices == b.vertices && a.faces == b.faces && a.vertex_normals == b.vertex_normals
        && a.face_normals == b.face_normals && a.vertex_colors == b.vertex_colors
        && a.face_colors == b.face_colors && a.face_materials == b.face_materials
}

/// All fields of the two buffers agree, except the face materials.
pub open spec fn unchanged_but_face_materials(a: MeshBuffer, b: MeshBuffer) -> bool {
    a.vertices == b.vertices && a.faces == b.faces && a.vertex_normals == b.vertex_normals
        && a.face_normals == b.face_normals && a.vertex_colors == b.vertex_colors
        && a.face_colors == b.face_colors && a.texture_coords == b.texture_coords
}

} // verus!
