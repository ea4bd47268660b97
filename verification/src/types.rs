use vstd::prelude::*;

verus! {

/// A discrete position in the sparse grid's index space.
///
/// Components are signed and carry no inherent bound; negative positions are
/// legal in the sparse index space even though they can never land inside a
/// dense target array.
#[derive(Clone, Copy, Debug, PartialEq, Eq, Structural)]
pub struct Coord {
    pub x: i64,
    pub y: i64,
    pub z: i64,
}

/// The tier of the source tree a sample originates from.
///
/// Only the finest tier, `Voxel`, carries a concrete per-cell scalar meant for
/// rasterization; the coarser tiers stand for whole tree nodes and are skipped
/// (with a recorded warning) by every stage of the pipeline.
#[derive(Clone, Copy, Debug, PartialEq, Eq, Structural)]
pub enum Level {
    Voxel,
    InternalNode,
    RootNode,
}

/// One sample produced by a grid traversal: a position, a scalar density and
/// the tree level it came from.
///
/// The scalar is carried as the bit pattern of its 64-bit IEEE-754 value, so
/// that the pipeline is bit-exact end to end; the library never interprets the
/// pattern numerically except through the documented total order used for the
/// diagnostic peak value.
#[derive(Clone, Copy, Debug, PartialEq, Eq, Structural)]
pub struct VoxelSample {
    pub pos: Coord,
    pub value_bits: u64,
    pub level: Level,
}

/// A per-grid metadata value, as far as this pipeline reads it.
///
/// Only the 3-integer-vector variant is meaningful here (it can carry an
/// authoritative dense size); every other variant of the source format is
/// folded into `Other`, whose only role is to be rejected with a wrong-type
/// error when a vector was expected.
#[derive(Clone, Copy, Debug, PartialEq, Eq, Structural)]
pub enum MetadataValue {
    Vec3i(i64, i64, i64),
    Other,
}

/// The terminal error conditions of the conversion pipeline.
///
/// `InputOpenFailure`, `GridDecodeFailure` and `OutputWriteFailure` arise only
/// at the I/O boundary around the library; they are listed here so that the
/// whole run reports errors of one type. `DimensionOverflow` reports a
/// requested dense size that exceeds what the header field or the machine's
/// address space can hold.
#[derive(Clone, Copy, Debug, PartialEq, Eq, Structural)]
pub enum PipelineError {
    InputOpenFailure,
    GridDecodeFailure,
    GridNotFound,
    MetadataKeyNotFound,
    MetadataWrongType,
    OutputWriteFailure,
    IndexOutOfRange,
    DimensionOverflow,
}

pub open spec fn is_voxel(s: VoxelSample) -> bool {
    s.level == Level::Voxel
}

} // verus!
