use lvr2::channel::Channel;
use lvr2::mesh_buffer::MeshBuffer;
use lvr2::point_buffer::PointBuffer;
use lvr2::vector::BaseVector;

#[test]
fn channel_test_new() {
    let ch = Channel::new(vec![1.0f32, 2.0, 3.0, 4.0, 5.0, 6.0], 3);
    assert_eq!(ch.len(), 2);
    assert_eq!(ch.width(), 3);
}

#[test]
fn test_get() {
    let ch = Channel::new(vec![1.0f32, 2.0, 3.0, 4.0, 5.0, 6.0], 3);
    assert_eq!(ch.get(0), Some([1.0, 2.0, 3.0].as_slice()));
    assert_eq!(ch.get(1), Some([4.0, 5.0, 6.0].as_slice()));
    assert_eq!(ch.get(2), None);
}

#[test]
fn test_push() {
    let mut ch = Channel::with_width(3);
    ch.push(&[1.0f32, 2.0, 3.0]);
    ch.push(&[4.0, 5.0, 6.0]);
    assert_eq!(ch.len(), 2);
}

#[test]
fn test_iterator() {
    let ch = Channel::new(vec![1, 2, 3, 4], 2);
    let mut it = ch.into_iter();
    let mut elements: Vec<&[i32]> = Vec::new();
    while let Some(e) = it.next() {
        elements.push(e);
    }
    assert_eq!(elements.len(), 2);
    assert_eq!(elements[0], &[1, 2]);
    assert_eq!(elements[1], &[3, 4]);
}

#[test]
fn test_size_hint() {
    let ch = Channel::new(vec![1, 2, 3, 4], 2);
    let it = ch.into_iter();
    assert_eq!(it.size_hint(), (2, Some(2)));
}

#[test]
fn test_with_size() {
    let ch: Channel<i64> = Channel::with_size(4, 3);
    assert_eq!(ch.len(), 4);
    assert_eq!(ch.width(), 3);
    assert_eq!(ch.data().len(), 12);
}

#[test]
fn test_clear() {
    let mut ch = Channel::new(vec![1, 2, 3, 4], 2);
    ch.clear();
    assert!(ch.is_empty());
    assert_eq!(ch.width(), 2);
}

#[test]
fn test_from_points() {
    let points = vec![
        BaseVector::new(0, 0, 0),
        BaseVector::new(1, 0, 0),
        BaseVector::new(0, 1, 0),
    ];
    let buffer = PointBuffer::from_points(points);
    assert_eq!(buffer.num_points(), 3);
}

#[test]
fn test_get_point() {
    let points = vec![BaseVector::new(1, 2, 3), BaseVector::new(4, 5, 6)];
    let buffer = PointBuffer::from_points(points);

    let p = buffer.get_point(0).unwrap();
    assert_eq!(p.x, 1);
    assert_eq!(p.y, 2);
    assert_eq!(p.z, 3);
}

#[test]
fn test_normals() {
    let points = vec![BaseVector::new(0, 0, 0), BaseVector::new(1, 0, 0)];
    let normals = vec![BaseVector::new(0, 0, 1), BaseVector::new(0, 0, 1)];

    let mut buffer = PointBuffer::from_points(points);
    buffer.set_normals(normals);

    assert!(buffer.has_normals());
    let n = buffer.get_normal(0).unwrap();
    assert_eq!(n.z, 1);
}

#[test]
fn point_buffer_test_bounding_box() {
    let points = vec![BaseVector::new(0, 0, 0), BaseVector::new(1, 2, 3)];
    let buffer = PointBuffer::from_points(points);
    let bb = buffer.bounding_box();

    assert!(bb.is_valid());
    assert_eq!(bb.min.x, 0);
    assert_eq!(bb.max.x, 1);
}

#[test]
fn mesh_buffer_test_new() {
    let mesh = MeshBuffer::new();
    assert_eq!(mesh.num_vertices(), 0);
    assert_eq!(mesh.num_faces(), 0);
}

#[test]
fn test_single_triangle() {
    let mut mesh = MeshBuffer::new();

    let vertices = vec![
        BaseVector::new(0, 0, 0),
        BaseVector::new(1, 0, 0),
        BaseVector::new(0, 1, 0),
    ];
    mesh.set_vertices(vertices);
    mesh.set_faces(vec![0, 1, 2]);

    assert_eq!(mesh.num_vertices(), 3);
    assert_eq!(mesh.num_faces(), 1);

    let face = mesh.get_face(0).unwrap();
    assert_eq!(face, [0, 1, 2]);
}

#[test]
fn test_compute_face_normals() {
    let mut mesh = MeshBuffer::new();

    // triangle in the xy plane: the normal points along positive z
    let vertices = vec![
        BaseVector::new(0, 0, 0),
        BaseVector::new(1, 0, 0),
        BaseVector::new(0, 1, 0),
    ];
    mesh.set_vertices(vertices);
    mesh.set_faces(vec![0, 1, 2]);

    mesh.compute_face_normals();

    let n = mesh.get_face_normal(0).unwrap();
    assert_eq!(n.x, 0);
    assert_eq!(n.y, 0);
    assert_eq!(n.z, lvr2::NORMAL_SCALE);
}

#[test]
fn mesh_buffer_test_bounding_box() {
    let mut mesh = MeshBuffer::new();

    let vertices = vec![
        BaseVector::new(0, 0, 0),
        BaseVector::new(1, 2, 3),
        BaseVector::new(-1, -2, -3),
    ];
    mesh.set_vertices(vertices);

    let bb = mesh.bounding_box();
    assert_eq!(bb.min.x, -1);
    assert_eq!(bb.max.x, 1);
}

#[test]
fn test_compute_vertex_normals() {
    let mut mesh = MeshBuffer::new();
    let vertices = vec![
        BaseVector::new(0, 0, 0),
        BaseVector::new(1000, 0, 0),
        BaseVector::new(0, 1000, 0),
    ];
    mesh.set_vertices(vertices);
    mesh.set_faces(vec![0, 1, 2]);
    mesh.compute_vertex_normals();
    assert!(mesh.has_vertex_normals());
    let n = mesh.get_vertex_normal(0).unwrap();
    assert_eq!(n.x, 0);
    assert_eq!(n.y, 0);
    assert_eq!(n.z, lvr2::NORMAL_SCALE);
}

#[test]
fn test_clone_buffer() {
    let points = vec![BaseVector::new(7, 8, 9)];
    let buffer = PointBuffer::from_points(points);
    let copy = buffer.clone_buffer();
    assert_eq!(copy.num_points(), 1);
    assert_eq!(copy.get_point(0), buffer.get_point(0));
}
