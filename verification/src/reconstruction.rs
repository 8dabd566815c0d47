//! The reconstruction orchestrator: input validation, normal estimation,
//! grid construction and isosurface extraction, in order.

use vstd::prelude::*;
use crate::scalar::NORMAL_SCALE;
use crate::vector::BaseVector;
use crate::point_buffer::{PointBuffer, spec_bb_fold};
use crate::mesh_buffer::MeshBuffer;
use crate::hash_grid::{HashGrid, spec_grid_keys, GRID_COORD_LIMIT, VOXEL_LIMIT};
use crate::marching_cubes::{MarchingCubes, spec_extract, spec_cell_step, spec_emit_triangles,
    spec_add_vertex};
use crate::normals::{estimate_normals, spec_estimated_normal, MAX_NEIGHBORHOOD};

verus! {

/// Errors that can occur during reconstruction.
#[derive(Debug)]
pub enum ReconstructionError {
    /// The input holds fewer points than a required minimum.
    NotEnoughPoints(usize),
    /// A configuration value is malformed.
    InvalidParameters(String),
    /// Extraction produced no geometry.
    AlgorithmError(String),
}

/// Options for surface reconstruction.
#[derive(Debug, Clone, PartialEq, Eq, Structural)]
pub struct ReconstructionOptions {
    /// Voxel edge length of the reconstruction grid, in coordinate units.
    pub voxel_size: i64,
    /// Number of neighbors for normal estimation.
    pub kn: usize,
    /// Number of neighbors for normal interpolation; not consumed here.
    pub ki: usize,
    /// Number of neighbors for the distance field.
    pub kd: usize,
    /// Fill holes up to this size; zero disables, and this stage ignores it.
    pub fill_holes: usize,
    /// Remove small regions below this threshold; ignored by this stage.
    pub small_region_threshold: usize,
    /// Number of threads to use; zero means automatic, and this stage
    /// always runs in one.
    pub num_threads: usize,
}

impl Default for ReconstructionOptions {
    /// The default configuration.
    fn default() -> (r: Self)
        ensures
            r == (ReconstructionOptions {
                voxel_size: 10,
                kn: 10,
                ki: 10,
                kd: 5,
                fill_holes: 0,
                small_region_threshold: 10,
                num_threads: 0,
            }),
    {
        ReconstructionOptions {
            voxel_size: 10,
            kn: 10,
            ki: 10,
            kd: 5,
            fill_holes: 0,
            small_region_threshold: 10,
            num_threads: 0,
        }
    }
}

/// The anchor a grid built over these points uses: the folded bounding
/// box's minimum corner, padded by one voxel on every side.
pub open spec fn spec_grid_origin(pts: Seq<BaseVector>, voxel_size: i64) -> BaseVector {
    let bb = spec_bb_fold(pts);
    BaseVector {
        x: (bb.min.x - voxel_size) as i64,
        y: (bb.min.y - voxel_size) as i64,
        z: (bb.min.z - voxel_size) as i64,
    }
}

/// What the extraction yields over a prepared point buffer with the given
/// grid parameters: the vertex, face and dedup state after all cells.
pub open spec fn spec_extraction_result(pb: PointBuffer, voxel_size: i64, kd: int) -> (
    Seq<BaseVector>,
    Seq<int>,
    Map<int, int>,
) {
    let pts = pb.spec_points_seq();
    let origin = spec_grid_origin(pts, voxel_size);
    let keys = spec_grid_keys(pts, origin, voxel_size, pts.len() as int);
    spec_extract(pb, origin, voxel_size, kd, keys, keys.len() as int)
}

/// A prepared buffer: the same points as the input, and normals attached:
/// the input's own, or the estimated ones when the input has none.
pub open spec fn spec_prepared_from(pb2: PointBuffer, points: PointBuffer, kn: int) -> bool {
    &&& pb2.wf()
    &&& pb2.spec_points_seq() == points.spec_points_seq()
    &&& pb2.spec_num_points() == points.spec_num_points()
    &&& pb2.normals is Some
    &&& points.normals is Some ==> forall|i: int|
        0 <= i < points.spec_num_points() ==> pb2.spec_normal(i) == points.spec_normal(i)
    &&& points.normals is None ==> forall|i: int|
        0 <= i < points.spec_num_points() ==> pb2.spec_normal(i) == spec_estimated_normal(
            points.spec_points_seq(), i, kn)
    &&& forall|i: int|
        0 <= i < pb2.spec_num_points()
            ==> (#[trigger] pb2.spec_normal(i)).bounded(1_000_000)
}

/// Reconstructs a surface from a point cloud: fails on fewer than ten
/// points, estimates normals when the input has none, builds the voxel
/// grid, and runs the Marching Cubes extraction. The result is a function
/// of the input points, their normals and the options alone; a mesh is
/// returned exactly when the extraction produced geometry, and such a
/// mesh always has at least one face.
pub fn reconstruct(points: &PointBuffer, options: &ReconstructionOptions) -> (r: Result<
    MeshBuffer,
    ReconstructionError,
>)
    requires
        points.wf(),
        points.points_bounded(GRID_COORD_LIMIT as int),
        points.spec_num_points() <= MAX_NEIGHBORHOOD,
        points.normals is Some ==> forall|i: int|
            0 <= i < points.spec_num_points()
                ==> (#[trigger] points.spec_normal(i)).bounded(1_000_000),
        1 <= options.voxel_size <= VOXEL_LIMIT,
        1 <= options.kn < MAX_NEIGHBORHOOD,
        1 <= options.kd,
    ensures
        ({
            let n = points.spec_num_points();
            &&& n < 10 ==> r == Err::<MeshBuffer, ReconstructionError>(
                ReconstructionError::NotEnoughPoints(n as usize))
            &&& n >= 10 && points.normals is None && n < options.kn ==> r == Err::<
                MeshBuffer,
                ReconstructionError,
            >(ReconstructionError::NotEnoughPoints(n as usize))
            &&& n >= 10 && (points.normals is Some || n >= options.kn) ==> exists|
                pb2: PointBuffer|
                {
                    &&& #[trigger] spec_prepared_from(pb2, *points, options.kn as int)
                    &&& {
                        let st = spec_extraction_result(pb2, options.voxel_size,
                            options.kd as int);
                        &&& st.0.len() == 0 ==> (r matches Err(e) && (e matches
                            ReconstructionError::AlgorithmError(_)))
                        &&& st.0.len() > 0 ==> (r matches Ok(mesh) && {
                            &&& mesh.wf()
                            &&& mesh.spec_num_vertices() == st.0.len()
                            &&& forall|v: int|
                                0 <= v < st.0.len() ==> mesh.spec_vertex(v) == st.0[v]
                            &&& mesh.faces.data@.map_values(|u: u32| u as int) == st.1
                            &&& mesh.spec_num_vertices() >= 1
                            &&& mesh.spec_num_faces() >= 1
                            &&& mesh.vertex_normals is Some
                            &&& mesh.face_normals is Some
                            &&& forall|fi: int|
                                0 <= fi < mesh.spec_num_faces()
                                    ==> mesh.spec_stored_face_normal(fi)
                                        == mesh.spec_face_normal(fi)
                        })
                    }
                }
        }),
{
    let n = points.num_points();
    if n < 10 {
        return Err(ReconstructionError::NotEnoughPoints(n));
    }
    let prepared: PointBuffer;
    if points.has_normals() {
        prepared = points.clone_buffer();
    } else {
        let mut pb = points.clone_buffer();
        match estimate_normals(points, options.kn) {
            Ok(normals) => {
                proof {
                    assert(pb.spec_num_points() == points.spec_num_points());
                }
                pb.set_normals(normals);
            },
            Err(e) => {
                return Err(e);
            },
        }
        prepared = pb;
    }
    proof {
        assert(spec_prepared_from(prepared, *points, options.kn as int)) by {
            assert forall|i: int| 0 <= i < prepared.spec_num_points()
                implies (#[trigger] prepared.spec_normal(i)).bounded(1_000_000) by {
                if points.normals is Some {
                    assert(prepared.spec_normal(i) == points.spec_normal(i));
                } else {
                    assert(prepared.spec_normal(i).bounded(NORMAL_SCALE as int));
                }
            }
            assert(prepared.spec_points_seq() =~= points.spec_points_seq());
        }
        assert forall|i: int| 0 <= i < prepared.spec_num_points()
            implies (#[trigger] prepared.spec_point(i)).bounded(GRID_COORD_LIMIT as int) by {
            assert(prepared.spec_points_seq()[i] == prepared.spec_point(i));
            assert(points.spec_points_seq()[i] == points.spec_point(i));
        }
    }
    let grid = HashGrid::new(&prepared, options.voxel_size);
    let mut mc = MarchingCubes::new(&grid, &prepared, options.kd);
    let out = mc.reconstruct();
    proof {
        let st = spec_extraction_result(prepared, options.voxel_size, options.kd as int);
        assert(grid.origin == spec_grid_origin(prepared.spec_points_seq(),
            options.voxel_size));
        assert(grid.keys@ == spec_grid_keys(prepared.spec_points_seq(), grid.origin,
            options.voxel_size, prepared.spec_points_seq().len() as int));
        if st.0.len() > 0 {
            crate::marching_cubes::lemma_extraction_geometry(prepared, grid.origin,
                options.voxel_size, options.kd as int, grid.keys@,
                grid.keys@.len() as int);
        }
    }
    out
}

/// Two extraction passes over the same prepared points, grid parameters
/// and neighbor count yield the same vertex list, face list and dedup
/// state: the extraction depends on nothing else.
pub proof fn lemma_extraction_deterministic(
    pb: PointBuffer,
    voxel_size: i64,
    kd: int,
    st1: (Seq<BaseVector>, Seq<int>, Map<int, int>),
    st2: (Seq<BaseVector>, Seq<int>, Map<int, int>),
)
    requires
        st1 == spec_extraction_result(pb, voxel_size, kd),
        st2 == spec_extraction_result(pb, voxel_size, kd),
    ensures
        st1 == st2,
{
}

} // verus!
