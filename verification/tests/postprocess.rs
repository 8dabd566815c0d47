use lvr2::algorithm::{
    compute_mesh_stats, remove_degenerate_faces, remove_unreferenced_vertices, simplify_mesh,
    smooth_mesh,
};
use lvr2::mesh_buffer::MeshBuffer;
use lvr2::vector::BaseVector;

fn right_triangle() -> MeshBuffer {
    let mut mesh = MeshBuffer::new();
    mesh.set_vertices(vec![
        BaseVector::new(0, 0, 0),
        BaseVector::new(3000, 0, 0),
        BaseVector::new(0, 4000, 0),
    ]);
    mesh.set_faces(vec![0, 1, 2]);
    mesh
}

#[test]
fn test_compute_mesh_stats() {
    // a 3-4-5 right triangle: exact edge lengths and area
    let mesh = right_triangle();
    let stats = compute_mesh_stats(&mesh);
    assert_eq!(stats.num_vertices, 3);
    assert_eq!(stats.num_faces, 1);
    assert_eq!(stats.min_edge_length, 3000);
    assert_eq!(stats.max_edge_length, 5000);
    assert_eq!(stats.avg_edge_length, 4000);
    assert_eq!(stats.surface_area, 6_000_000);
}

#[test]
fn test_compute_mesh_stats_empty() {
    let mesh = MeshBuffer::new();
    let stats = compute_mesh_stats(&mesh);
    assert_eq!(stats.num_faces, 0);
    assert_eq!(stats.min_edge_length, i64::MAX);
    assert_eq!(stats.max_edge_length, 0);
    assert_eq!(stats.avg_edge_length, 0);
    assert_eq!(stats.surface_area, 0);
}

#[test]
fn test_smooth_mesh_full_step() {
    // with the full smoothing factor, every vertex lands on the floor mean
    // of its two neighbors
    let mut mesh = MeshBuffer::new();
    mesh.set_vertices(vec![
        BaseVector::new(0, 0, 0),
        BaseVector::new(3000, 0, 0),
        BaseVector::new(0, 3000, 0),
    ]);
    mesh.set_faces(vec![0, 1, 2]);
    smooth_mesh(&mut mesh, 1, lvr2::NORMAL_SCALE);
    assert_eq!(mesh.get_vertex(0).unwrap(), BaseVector::new(1500, 1500, 0));
    assert_eq!(mesh.get_vertex(1).unwrap(), BaseVector::new(0, 1500, 0));
    assert_eq!(mesh.get_vertex(2).unwrap(), BaseVector::new(1500, 0, 0));
    assert!(mesh.has_vertex_normals());
}

#[test]
fn test_smooth_mesh_zero_factor() {
    // a zero factor leaves every vertex where it stands
    let mut mesh = right_triangle();
    smooth_mesh(&mut mesh, 3, 0);
    assert_eq!(mesh.get_vertex(0).unwrap(), BaseVector::new(0, 0, 0));
    assert_eq!(mesh.get_vertex(1).unwrap(), BaseVector::new(3000, 0, 0));
    assert_eq!(mesh.get_vertex(2).unwrap(), BaseVector::new(0, 4000, 0));
}

#[test]
fn test_stub_passes_leave_mesh_unchanged() {
    let mut mesh = right_triangle();
    remove_degenerate_faces(&mut mesh);
    remove_unreferenced_vertices(&mut mesh);
    simplify_mesh(&mut mesh, lvr2::NORMAL_SCALE / 2);
    assert_eq!(mesh.num_vertices(), 3);
    assert_eq!(mesh.num_faces(), 1);
    assert_eq!(mesh.get_vertex(1).unwrap(), BaseVector::new(3000, 0, 0));
}
