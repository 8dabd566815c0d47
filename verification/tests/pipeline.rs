use lvr2::hash_grid::HashGrid;
use lvr2::marching_cubes::MarchingCubes;
use lvr2::normals::estimate_normals;
use lvr2::point_buffer::PointBuffer;
use lvr2::reconstruction::{reconstruct, ReconstructionError, ReconstructionOptions};
use lvr2::search_tree::SearchTree;
use lvr2::vector::BaseVector;

fn sphere_cloud(radius: i64) -> PointBuffer {
    // six axis points and eight diagonal points on a sphere surface, with
    // outward normals
    let unit = 577 * radius / 1000;
    let points = vec![
        BaseVector::new(radius, 0, 0),
        BaseVector::new(-radius, 0, 0),
        BaseVector::new(0, radius, 0),
        BaseVector::new(0, -radius, 0),
        BaseVector::new(0, 0, radius),
        BaseVector::new(0, 0, -radius),
        BaseVector::new(unit, unit, unit),
        BaseVector::new(-unit, unit, unit),
        BaseVector::new(unit, -unit, unit),
        BaseVector::new(unit, unit, -unit),
        BaseVector::new(-unit, -unit, unit),
        BaseVector::new(-unit, unit, -unit),
        BaseVector::new(unit, -unit, -unit),
        BaseVector::new(-unit, -unit, -unit),
    ];
    let normals: Vec<BaseVector> = points.clone();
    let mut pb = PointBuffer::from_points(points);
    pb.set_normals(normals);
    pb
}

#[test]
fn test_reconstruct_sphere_has_faces() {
    // ten or more points with normals: either a mesh with faces or an
    // algorithm error, never an empty mesh
    let pb = sphere_cloud(2000);
    let mut options = ReconstructionOptions::default();
    options.voxel_size = 1000;
    options.kd = 3;
    match reconstruct(&pb, &options) {
        Ok(mesh) => {
            assert!(mesh.num_vertices() >= 1);
            assert!(mesh.num_faces() >= 1);
        },
        Err(e) => {
            assert!(matches!(e, ReconstructionError::AlgorithmError(_)));
        },
    }
}

#[test]
fn test_reconstruct_not_enough_points() {
    let points = vec![
        BaseVector::new(0, 0, 0),
        BaseVector::new(1000, 0, 0),
        BaseVector::new(0, 1000, 0),
        BaseVector::new(0, 0, 1000),
        BaseVector::new(1000, 1000, 0),
    ];
    let pb = PointBuffer::from_points(points);
    let options = ReconstructionOptions::default();
    match reconstruct(&pb, &options) {
        Err(ReconstructionError::NotEnoughPoints(n)) => assert_eq!(n, 5),
        _ => panic!("expected a point-count failure"),
    }
}

#[test]
fn test_reconstruct_no_surface() {
    // ten coincident points without normals: every corner looks inside,
    // so no cell crosses the surface and extraction reports no geometry
    let points = vec![BaseVector::new(0, 0, 0); 10];
    let pb = PointBuffer::from_points(points);
    let mut options = ReconstructionOptions::default();
    options.voxel_size = 1000;
    match reconstruct(&pb, &options) {
        Err(ReconstructionError::AlgorithmError(_)) => {},
        other => panic!("expected no geometry, got {:?}", other.map(|m| m.num_faces())),
    }
}

#[test]
fn test_estimate_normals_not_enough_points() {
    let points = vec![BaseVector::new(0, 0, 0), BaseVector::new(1000, 0, 0)];
    let pb = PointBuffer::from_points(points);
    match estimate_normals(&pb, 5) {
        Err(ReconstructionError::NotEnoughPoints(n)) => assert_eq!(n, 2),
        _ => panic!("expected a point-count failure"),
    }
}

#[test]
fn test_flat_plane_normals() {
    // a five-by-five grid in the z = 0 plane: every estimated normal is
    // exactly the positive or negative z axis
    let mut points = Vec::new();
    for x in 0..5i64 {
        for y in 0..5i64 {
            points.push(BaseVector::new(x * 1000, y * 1000, 0));
        }
    }
    let pb = PointBuffer::from_points(points);
    let normals = estimate_normals(&pb, 8).unwrap();
    assert_eq!(normals.len(), 25);
    for n in &normals {
        assert_eq!(n.x, 0);
        assert_eq!(n.y, 0);
        assert_eq!(n.z.abs(), lvr2::NORMAL_SCALE);
    }
}

#[test]
fn test_field_sign_on_sphere() {
    // the signed field is negative at the sphere's center and positive
    // well outside it
    let pb = sphere_cloud(2000);
    let grid = HashGrid::new(&pb, 500);
    let mut mc = MarchingCubes::new(&grid, &pb, 3);
    let inner_cell = grid.point_to_cell(&BaseVector::new(0, 0, 0));
    let d_inner = mc.compute_distance(inner_cell);
    assert!(d_inner < 0, "field at the center was {}", d_inner);
    let outer_cell = grid.point_to_cell(&BaseVector::new(4000, 0, 0));
    let d_outer = mc.compute_distance(outer_cell);
    assert!(d_outer > 0, "field outside was {}", d_outer);
}

#[test]
fn test_cube_corner_cloud() {
    // eight cube corners with outward normals: a non-empty mesh whose
    // bounding box roughly matches the cube, within one voxel
    let half = 500i64;
    let mut points = Vec::new();
    let mut normals = Vec::new();
    for &x in &[-half, half] {
        for &y in &[-half, half] {
            for &z in &[-half, half] {
                points.push(BaseVector::new(x, y, z));
                normals.push(BaseVector::new(x, y, z));
            }
        }
    }
    let mut pb = PointBuffer::from_points(points);
    pb.set_normals(normals);
    // a voxel edge of one cube side would land every cell corner exactly
    // on a sample, where the field vanishes; an off-size grid avoids that
    let voxel = 900;
    let grid = HashGrid::new(&pb, voxel);
    let mut mc = MarchingCubes::new(&grid, &pb, 3);
    let mesh = mc.reconstruct().unwrap();
    assert!(mesh.num_vertices() >= 1);
    assert!(mesh.num_faces() >= 1);
    let bb = mesh.bounding_box();
    assert!(bb.is_valid());
    assert!(bb.min.x >= -half - voxel && bb.max.x <= half + voxel);
    assert!(bb.min.y >= -half - voxel && bb.max.y <= half + voxel);
    assert!(bb.min.z >= -half - voxel && bb.max.z <= half + voxel);
}

#[test]
fn test_extraction_idempotent() {
    // two extraction passes over the same grid and index yield the same
    // mesh, vertex for vertex and face for face
    let pb = sphere_cloud(2000);
    let grid = HashGrid::new(&pb, 900);
    let mut mc1 = MarchingCubes::new(&grid, &pb, 3);
    let r1 = mc1.reconstruct();
    let mut mc2 = MarchingCubes::new(&grid, &pb, 3);
    let r2 = mc2.reconstruct();
    match (r1, r2) {
        (Ok(m1), Ok(m2)) => {
            assert_eq!(m1.vertex_data(), m2.vertex_data());
            assert_eq!(m1.face_data(), m2.face_data());
            // a second pass of the same extractor, with its cache warm,
            // agrees as well
            let r3 = mc2.reconstruct().unwrap();
            assert_eq!(m2.vertex_data(), r3.vertex_data());
            assert_eq!(m2.face_data(), r3.face_data());
        },
        (Err(_), Err(_)) => {},
        _ => panic!("the two passes disagreed"),
    }
}

#[test]
fn test_knn_ordering() {
    // neighbors come back in non-decreasing distance order, and exactly
    // min(k, n) of them
    let points = vec![
        BaseVector::new(0, 0, 0),
        BaseVector::new(10, 0, 0),
        BaseVector::new(3, 0, 0),
        BaseVector::new(7, 0, 0),
        BaseVector::new(1, 1, 1),
    ];
    let tree = SearchTree::from_points(points);
    let q = BaseVector::new(0, 0, 0);
    let got = tree.knn(&q, 3);
    assert_eq!(got.len(), 3);
    let mut last = -1i64;
    for p in &got {
        let d2 = p.distance2(&q);
        assert!(d2 >= last);
        last = d2;
    }
    assert_eq!(got[0], BaseVector::new(0, 0, 0));
    let all = tree.knn(&q, 99);
    assert_eq!(all.len(), 5);
}

#[test]
fn test_knn_indices_ordering() {
    let points = vec![
        BaseVector::new(5, 0, 0),
        BaseVector::new(1, 0, 0),
        BaseVector::new(3, 0, 0),
    ];
    let tree = SearchTree::from_points(points);
    let idx = tree.knn_indices(&BaseVector::new(0, 0, 0), 3);
    assert_eq!(idx, vec![1, 2, 0]);
}

#[test]
fn test_radius_search() {
    let points = vec![
        BaseVector::new(0, 0, 0),
        BaseVector::new(5, 0, 0),
        BaseVector::new(20, 0, 0),
    ];
    let tree = SearchTree::from_points(points);
    let within = tree.radius_search(&BaseVector::new(0, 0, 0), 5);
    assert_eq!(within.len(), 2);
    assert_eq!(within[0], BaseVector::new(0, 0, 0));
    assert_eq!(within[1], BaseVector::new(5, 0, 0));
}

#[test]
fn test_grid_cell_keys_match_points() {
    // the grid invariant on concrete data: every stored point index is
    // valid, and its recomputed cell equals the cell it is stored under
    let pb = sphere_cloud(2000);
    let grid = HashGrid::new(&pb, 700);
    let coords = grid.cell_coords();
    let cells = grid.cells();
    assert_eq!(coords.len(), cells.len());
    assert!(grid.num_cells() >= 1);
    for (c, cell) in coords.iter().zip(cells.iter()) {
        assert!(!cell.point_indices.is_empty());
        for &idx in &cell.point_indices {
            let p = pb.get_point(idx).unwrap();
            assert_eq!(grid.point_to_cell(&p), *c);
        }
    }
}

#[test]
fn test_grid_lookup() {
    let pb = sphere_cloud(2000);
    let grid = HashGrid::new(&pb, 700);
    let coords = grid.cell_coords();
    for c in &coords {
        assert!(grid.get_cell(*c).is_some());
    }
    assert!(grid.get_cell((-1, -1, -1)).is_none());
}

#[test]
fn test_default_options() {
    let options = ReconstructionOptions::default();
    assert_eq!(options.voxel_size, 10);
    assert_eq!(options.kn, 10);
    assert_eq!(options.ki, 10);
    assert_eq!(options.kd, 5);
    assert_eq!(options.fill_holes, 0);
    assert_eq!(options.small_region_threshold, 10);
    assert_eq!(options.num_threads, 0);
}

#[test]
fn test_empty_point_buffer() {
    let pb = PointBuffer::new();
    assert!(pb.is_empty());
    assert_eq!(pb.num_points(), 0);
    let bb = pb.bounding_box();
    assert!(!bb.is_valid());
}
