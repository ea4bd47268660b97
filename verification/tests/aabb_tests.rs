use vdb_dense::bbox::scan_bounding_box;
use vdb_dense::AABB;
use vdb_dense::Coord;
use vdb_dense::Level;
use vdb_dense::VoxelSample;

fn pt(x: i64, y: i64, z: i64) -> Coord {
    Coord { x, y, z }
}

fn voxel(x: i64, y: i64, z: i64, value: f64) -> VoxelSample {
    VoxelSample { pos: pt(x, y, z), value_bits: value.to_bits(), level: Level::Voxel }
}

#[test]
fn default_is_identity_extremes() {
    let b = AABB::default();
    assert_eq!(b.min, pt(i64::MAX, i64::MAX, i64::MAX));
    assert_eq!(b.max, pt(i64::MIN, i64::MIN, i64::MIN));
    assert!(b.is_degenerate());
}

#[test]
fn extend_single_point() {
    let mut b = AABB::default();
    b.extend(pt(3, -2, 7));
    assert_eq!(b.min, pt(3, -2, 7));
    assert_eq!(b.max, pt(3, -2, 7));
    assert!(!b.is_degenerate());
}

#[test]
fn extend_componentwise_min_max() {
    let mut b = AABB::default();
    b.extend(pt(1, 10, -5));
    b.extend(pt(4, -3, 2));
    b.extend(pt(-2, 6, 9));
    assert_eq!(b.min, pt(-2, -3, -5));
    assert_eq!(b.max, pt(4, 10, 9));
}

#[test]
fn extend_idempotent() {
    let mut b = AABB::default();
    b.extend(pt(5, 5, 5));
    let once = b;
    b.extend(pt(5, 5, 5));
    assert_eq!(b, once);
}

#[test]
fn extend_order_independent() {
    let points = [pt(1, 2, 3), pt(-4, 0, 8), pt(7, -1, -9), pt(0, 0, 0)];
    let mut forward = AABB::default();
    for p in points {
        forward.extend(p);
    }
    let mut backward = AABB::default();
    for p in points.iter().rev() {
        backward.extend(*p);
    }
    assert_eq!(forward, backward);
}

#[test]
fn extend_only_widens() {
    let mut b = AABB::default();
    b.extend(pt(0, 0, 0));
    b.extend(pt(10, 10, 10));
    b.extend(pt(5, 5, 5));
    assert_eq!(b.min, pt(0, 0, 0));
    assert_eq!(b.max, pt(10, 10, 10));
}

#[test]
fn scan_excludes_non_voxel_levels() {
    let samples = vec![
        voxel(1, 2, 3, 1.0),
        VoxelSample { pos: pt(100, 100, 100), value_bits: 9.0f64.to_bits(), level: Level::InternalNode },
        VoxelSample { pos: pt(-50, 0, 0), value_bits: 9.0f64.to_bits(), level: Level::RootNode },
    ];
    let b = scan_bounding_box(&samples);
    assert_eq!(b.min, pt(1, 2, 3));
    assert_eq!(b.max, pt(1, 2, 3));
}

#[test]
fn scan_of_empty_stays_degenerate() {
    let b = scan_bounding_box(&Vec::new());
    assert!(b.is_degenerate());
    assert_eq!(b, AABB::default());
}
