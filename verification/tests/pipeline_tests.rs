use vdb_dense::dims::Dimensions;
use vdb_dense::pipeline::convert;
use vdb_dense::pipeline::grid_available;
use vdb_dense::pipeline::validate_grid_name;
use vdb_dense::pipeline::SizingMode;
use vdb_dense::Coord;
use vdb_dense::Level;
use vdb_dense::MetadataValue;
use vdb_dense::PipelineError;
use vdb_dense::VoxelSample;

fn sample(x: i64, y: i64, z: i64, value: f64, level: Level) -> VoxelSample {
    VoxelSample { pos: Coord { x, y, z }, value_bits: value.to_bits(), level }
}

#[test]
fn single_voxel_bounding_box_run() {
    let samples = vec![sample(1, 2, 3, 5.0, Level::Voxel)];
    let out = convert(&samples, &SizingMode::BoundingBox).expect("run must succeed");
    assert_eq!(out.dims, Dimensions { x: 2, y: 3, z: 4 });
    assert_eq!(out.cells.len(), 24);
    assert_eq!(out.cells[23], 5.0f64.to_bits());
    for (i, &c) in out.cells.iter().enumerate() {
        if i != 23 {
            assert_eq!(c, 0.0f64.to_bits());
        }
    }
    assert_eq!(out.voxel_count, 1);
    assert_eq!(out.non_voxel_warnings, 0);
    assert_eq!(f64::from_bits(out.peak_bits), 5.0);
    assert_eq!(out.encoded.len(), 12 + 8 * 24);
}

#[test]
fn metadata_shape_too_small_reports_out_of_range() {
    let samples = vec![sample(10, 0, 0, 1.0, Level::Voxel)];
    let sizing = SizingMode::Metadata(Some(MetadataValue::Vec3i(4, 4, 4)));
    assert!(matches!(convert(&samples, &sizing), Err(PipelineError::IndexOutOfRange)));
}

#[test]
fn absent_grid_name_is_reported() {
    let names = vec![String::from("temperature"), String::from("velocity")];
    let wanted = String::from("density_noise");
    assert!(!grid_available(&names, &wanted));
    assert_eq!(validate_grid_name(&names, &wanted), Err(PipelineError::GridNotFound));
    assert_eq!(validate_grid_name(&names, &names[1].clone()), Ok(()));
}

#[test]
fn non_voxel_sample_is_skipped_and_warned() {
    let samples = vec![
        sample(9, 9, 9, 7.0, Level::InternalNode),
        sample(1, 0, 0, 2.0, Level::Voxel),
    ];
    let out = convert(&samples, &SizingMode::BoundingBox).expect("run must succeed");
    // The coarse sample is excluded from the bounding box...
    assert_eq!(out.dims, Dimensions { x: 2, y: 1, z: 1 });
    // ...and from the dense write and the voxel count, with one warning.
    assert_eq!(out.cells, vec![0.0f64.to_bits(), 2.0f64.to_bits()]);
    assert_eq!(out.voxel_count, 1);
    assert_eq!(out.non_voxel_warnings, 1);
}

#[test]
fn empty_grid_yields_explicit_zero_shape() {
    let out = convert(&Vec::new(), &SizingMode::BoundingBox).expect("run must succeed");
    assert_eq!(out.dims, Dimensions { x: 0, y: 0, z: 0 });
    assert_eq!(out.cells.len(), 0);
    assert_eq!(out.encoded, vec![0; 12]);
    assert_eq!(out.voxel_count, 0);
    assert_eq!(f64::from_bits(out.peak_bits), 0.0);
}

#[test]
fn metadata_key_missing_fails_run() {
    let samples = vec![sample(0, 0, 0, 1.0, Level::Voxel)];
    let sizing = SizingMode::Metadata(None);
    assert!(matches!(convert(&samples, &sizing), Err(PipelineError::MetadataKeyNotFound)));
}

#[test]
fn metadata_wrong_type_fails_run() {
    let samples = vec![sample(0, 0, 0, 1.0, Level::Voxel)];
    let sizing = SizingMode::Metadata(Some(MetadataValue::Other));
    assert!(matches!(convert(&samples, &sizing), Err(PipelineError::MetadataWrongType)));
}

#[test]
fn oversized_metadata_vector_fails_run() {
    let sizing = SizingMode::Metadata(Some(MetadataValue::Vec3i(i32::MAX as i64 + 1, 1, 1)));
    assert!(matches!(convert(&Vec::new(), &sizing), Err(PipelineError::DimensionOverflow)));
}

#[test]
fn metadata_shape_larger_than_extent_is_fine() {
    let samples = vec![sample(1, 0, 0, 3.0, Level::Voxel)];
    let sizing = SizingMode::Metadata(Some(MetadataValue::Vec3i(4, 4, 4)));
    let out = convert(&samples, &sizing).expect("run must succeed");
    assert_eq!(out.dims, Dimensions { x: 4, y: 4, z: 4 });
    assert_eq!(out.cells.len(), 64);
    assert_eq!(out.cells[1], 3.0f64.to_bits());
}

#[test]
fn last_write_wins_on_duplicate_coordinate() {
    let samples = vec![
        sample(0, 0, 0, 1.0, Level::Voxel),
        sample(0, 0, 0, 9.0, Level::Voxel),
    ];
    let out = convert(&samples, &SizingMode::BoundingBox).expect("run must succeed");
    assert_eq!(out.cells, vec![9.0f64.to_bits()]);
    assert_eq!(out.voxel_count, 2);
}

#[test]
fn negative_coordinate_is_out_of_range() {
    let samples = vec![
        sample(1, 1, 1, 1.0, Level::Voxel),
        sample(-1, 0, 0, 1.0, Level::Voxel),
    ];
    assert!(matches!(
        convert(&samples, &SizingMode::BoundingBox),
        Err(PipelineError::IndexOutOfRange)
    ));
}

#[test]
fn peak_ignores_negative_values_below_zero() {
    let samples = vec![
        sample(0, 0, 0, -3.0, Level::Voxel),
        sample(1, 0, 0, 2.5, Level::Voxel),
    ];
    let out = convert(&samples, &SizingMode::BoundingBox).expect("run must succeed");
    assert_eq!(f64::from_bits(out.peak_bits), 2.5);
    let lonely = vec![sample(0, 0, 0, -3.0, Level::Voxel)];
    let out2 = convert(&lonely, &SizingMode::BoundingBox).expect("run must succeed");
    assert_eq!(f64::from_bits(out2.peak_bits), 0.0);
}

#[test]
fn encoded_output_matches_codec() {
    let samples = vec![sample(1, 0, 0, 4.25, Level::Voxel)];
    let out = convert(&samples, &SizingMode::BoundingBox).expect("run must succeed");
    let reencoded = vdb_dense::codec::encode(&out.dims, &out.cells);
    assert_eq!(out.encoded, reencoded);
    let (d2, cells2) = vdb_dense::codec::decode(&out.encoded).expect("must decode");
    assert_eq!(d2, out.dims);
    assert_eq!(cells2, out.cells);
}
