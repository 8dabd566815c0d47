use lvr2::bounding_box::BoundingBox;
use lvr2::matrix::Matrix4;
use lvr2::normal::Normal;
use lvr2::plane::Plane;
use lvr2::vector::BaseVector;

#[test]
fn test_new_is_invalid() {
    let bb = BoundingBox::new();
    assert!(!bb.is_valid());
}

#[test]
fn test_expand() {
    let mut bb = BoundingBox::new();
    bb.expand(BaseVector::new(0, 0, 0));
    bb.expand(BaseVector::new(1, 2, 3));

    assert!(bb.is_valid());
    assert_eq!(bb.min, BaseVector::new(0, 0, 0));
    assert_eq!(bb.max, BaseVector::new(1, 2, 3));
}

#[test]
fn test_contains() {
    let bb = BoundingBox::from_points(BaseVector::new(0, 0, 0), BaseVector::new(10, 10, 10));

    assert!(bb.contains(&BaseVector::new(5, 5, 5)));
    assert!(!bb.contains(&BaseVector::new(20, 5, 5)));
}

#[test]
fn test_center() {
    let bb = BoundingBox::from_points(BaseVector::new(0, 0, 0), BaseVector::new(2, 4, 6));
    let center = bb.center();

    assert_eq!(center.x, 1);
    assert_eq!(center.y, 2);
    assert_eq!(center.z, 3);
}

#[test]
fn test_identity() {
    let m = Matrix4::identity();
    let p = BaseVector::new(1, 2, 3);
    let transformed = m.transform_point(&p);
    assert_eq!(transformed.x, p.x);
    assert_eq!(transformed.y, p.y);
    assert_eq!(transformed.z, p.z);
}

#[test]
fn test_translation() {
    let m = Matrix4::translation(1, 2, 3);
    let p = BaseVector::new(0, 0, 0);
    let transformed = m.transform_point(&p);
    assert_eq!(transformed.x, 1);
    assert_eq!(transformed.y, 2);
    assert_eq!(transformed.z, 3);
}

#[test]
fn test_scale() {
    let m = Matrix4::scale(2);
    let p = BaseVector::new(1, 2, 3);
    let transformed = m.transform_point(&p);
    assert_eq!(transformed.x, 2);
    assert_eq!(transformed.y, 4);
    assert_eq!(transformed.z, 6);
}

#[test]
fn test_normalization() {
    let n = Normal::new(3, 4, 0);
    // (3, 4, 0) rescales onto the 3-4-5 direction at NORMAL_SCALE
    let len2 = n.x * n.x + n.y * n.y + n.z * n.z;
    let len = n.length();
    assert!((len * len) <= len2 && len2 < (len + 1) * (len + 1));
    assert!((len - lvr2::NORMAL_SCALE).abs() <= 1);
    assert_eq!(n.x, 3 * lvr2::NORMAL_SCALE / 5);
    assert_eq!(n.y, 4 * lvr2::NORMAL_SCALE / 5);
}

#[test]
fn test_dot() {
    let n1 = Normal::new(1, 0, 0);
    let n2 = Normal::new(0, 1, 0);
    assert_eq!(n1.dot(&n2), 0);
}

#[test]
fn test_neg() {
    let n = Normal::new(1, 0, 0);
    let neg = -n;
    assert_eq!(neg.x, -lvr2::NORMAL_SCALE);
}

#[test]
fn test_signed_distance() {
    let plane = Plane::new(BaseVector::new(0, 0, 0), Normal::new(0, 0, 1));

    assert_eq!(plane.signed_distance(&BaseVector::new(0, 0, 5)), 5);
    assert_eq!(plane.signed_distance(&BaseVector::new(0, 0, -3)), -3);
}

#[test]
fn test_project() {
    let plane = Plane::new(BaseVector::new(0, 0, 0), Normal::new(0, 0, 1));

    let projected = plane.project(&BaseVector::new(1, 2, 5));
    assert_eq!(projected.x, 1);
    assert_eq!(projected.y, 2);
    assert_eq!(projected.z, 0);
}

#[test]
fn vector_test_new() {
    let v = BaseVector::new(1, 2, 3);
    assert_eq!(v.x, 1);
    assert_eq!(v.y, 2);
    assert_eq!(v.z, 3);
}

#[test]
fn test_default() {
    let v: BaseVector = Default::default();
    assert_eq!(v.x, 0);
    assert_eq!(v.y, 0);
    assert_eq!(v.z, 0);
}

#[test]
fn test_add() {
    let v1 = BaseVector::new(1, 2, 3);
    let v2 = BaseVector::new(4, 5, 6);
    let sum = v1 + v2;
    assert_eq!(sum.x, 5);
    assert_eq!(sum.y, 7);
    assert_eq!(sum.z, 9);
}

#[test]
fn test_sub() {
    let v1 = BaseVector::new(4, 5, 6);
    let v2 = BaseVector::new(1, 2, 3);
    let diff = v1 - v2;
    assert_eq!(diff.x, 3);
    assert_eq!(diff.y, 3);
    assert_eq!(diff.z, 3);
}

#[test]
fn vector_test_dot() {
    let v1 = BaseVector::new(1, 2, 3);
    let v2 = BaseVector::new(4, 5, 6);
    assert_eq!(v1.dot(&v2), 32);
}

#[test]
fn test_cross() {
    let v1 = BaseVector::new(1, 0, 0);
    let v2 = BaseVector::new(0, 1, 0);
    let cross = v1.cross(&v2);
    assert_eq!(cross.x, 0);
    assert_eq!(cross.y, 0);
    assert_eq!(cross.z, 1);
}

#[test]
fn test_length() {
    let v = BaseVector::new(3, 4, 0);
    assert_eq!(v.length(), 5);
}

#[test]
fn test_normalized() {
    let v = BaseVector::new(3, 4, 0);
    let n = v.normalized();
    let len = n.length();
    assert!((len - lvr2::NORMAL_SCALE).abs() <= 1);
    assert_eq!(n.x, 3 * lvr2::NORMAL_SCALE / 5);
    assert_eq!(n.y, 4 * lvr2::NORMAL_SCALE / 5);
}

#[test]
fn test_centroid() {
    let pts = vec![
        BaseVector::new(0, 0, 0),
        BaseVector::new(2, 4, 6),
        BaseVector::new(4, 8, 12),
    ];
    let c = BaseVector::centroid(&pts);
    assert_eq!(c, BaseVector::new(2, 4, 6));
}

#[test]
fn test_multiply() {
    let a = Matrix4::scale(2);
    let b = Matrix4::translation(1, 2, 3);
    let ab = a.multiply(&b);
    let p = ab.transform_point(&BaseVector::new(0, 0, 0));
    assert_eq!(p, BaseVector::new(2, 4, 6));
}
