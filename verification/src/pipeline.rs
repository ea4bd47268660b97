use vstd::prelude::*;

use crate::bbox::lemma_accumulate_componentwise;
use crate::bbox::lemma_voxel_position_present;
use crate::bbox::scan_bounding_box;
use crate::bbox::scan_box;
use crate::bbox::voxel_positions;
use crate::codec::encode;
use crate::codec::spec_encode;
use crate::dims::Dimensions;
use crate::dims::from_bounding_box;
use crate::dims::from_metadata;
use crate::dims::spec_dims_from_box;
use crate::dims::spec_dims_from_metadata;
use crate::raster::all_voxels_in_range;
use crate::raster::count_voxels;
use crate::raster::lemma_voxel_count_bounds;
use crate::raster::peak_density_bits;
use crate::raster::peak_fold;
use crate::raster::raster_fold;
use crate::raster::rasterize;
use crate::raster::spec_voxel_count;
use crate::types::MetadataValue;
use crate::types::is_voxel;
use crate::types::PipelineError;
use crate::types::VoxelSample;

verus! {

/// How the dense shape is chosen: from the bounding box of the voxel-level
/// samples, or from a metadata value looked up by the caller (`None` when the
/// key was absent). The two modes are mutually exclusive.
#[derive(Clone, Copy, Debug, PartialEq, Eq, Structural)]
pub enum SizingMode {
    BoundingBox,
    Metadata(Option<MetadataValue>),
}

/// Everything one conversion run produces: the shape, the dense array, its
/// encoding, and the diagnostic counters.
pub struct ConversionOutput {
    /// The resolved shape of the dense array.
    pub dims: Dimensions,
    /// The dense cells, row-major with x fastest, as 64-bit IEEE-754 bit
    /// patterns.
    pub cells: Vec<u64>,
    /// The cells and shape in the fixed little-endian output layout.
    pub encoded: Vec<u8>,
    /// How many voxel-level samples were scattered; diagnostic only.
    pub voxel_count: usize,
    /// How many coarser-level samples were skipped, one warning each;
    /// diagnostic only.
    pub non_voxel_warnings: usize,
    /// The peak scattered value under the IEEE-754 total order, as a bit
    /// pattern, at least that of 0.0; diagnostic only.
    pub peak_bits: u64,
}

/// Whether `requested` is one of the available grid names.
pub fn grid_available(names: &Vec<String>, requested: &String) -> (r: bool)
    ensures
        r == exists|i: int| 0 <= i < names@.len() && names@[i]@ == requested@,
{
    let mut i: usize = 0;
    while i < names.len()
        invariant
            0 <= i <= names@.len(),
            forall|j: int| 0 <= j < i ==> names@[j]@ != requested@,
        decreases names@.len() - i,
    {
        if names[i].eq(requested) {
            return true;
        }
        i = i + 1;
    }
    false
}

/// Validates the requested grid name against the available ones before any
/// load is attempted: an absent name is reported as the terminal
/// grid-not-found condition, and no output is owed for the run.
pub fn validate_grid_name(names: &Vec<String>, requested: &String) -> (r: Result<
    (),
    PipelineError,
>)
    ensures
        (exists|i: int| 0 <= i < names@.len() && names@[i]@ == requested@) ==> r == Ok::<
            (),
            PipelineError,
        >(()),
        !(exists|i: int| 0 <= i < names@.len() && names@[i]@ == requested@) ==> r == Err::<
            (),
            PipelineError,
        >(PipelineError::GridNotFound),
{
    if grid_available(names, requested) {
        Ok(())
    } else {
        Err(PipelineError::GridNotFound)
    }
}

/// The shape the run will use: from the voxel-level bounding box of the
/// samples, or from the looked-up metadata value.
pub open spec fn spec_resolve(samples: Seq<VoxelSample>, sizing: SizingMode) -> Result<
    Dimensions,
    PipelineError,
> {
    match sizing {
        SizingMode::BoundingBox => spec_dims_from_box(scan_box(samples)),
        SizingMode::Metadata(found) => spec_dims_from_metadata(found),
    }
}

/// Derives the dense shape for the run, in whichever mode was selected.
pub fn resolve_dimensions(samples: &Vec<VoxelSample>, sizing: &SizingMode) -> (r: Result<
    Dimensions,
    PipelineError,
>)
    ensures
        r == spec_resolve(samples@, *sizing),
        r matches Ok(d) ==> d.wf(),
{
    match sizing {
        SizingMode::BoundingBox => {
            let b = scan_bounding_box(samples);
            from_bounding_box(&b)
        },
        SizingMode::Metadata(found) => from_metadata(found),
    }
}

/// In bounding-box mode the shape covers the voxels by construction: when the
/// shape was derived from the samples' own bounding box and no voxel-level
/// sample sits at a negative coordinate, every voxel-level sample lies inside
/// the shape, so the rasterizer cannot report an out-of-range sample. (The
/// metadata path carries no such guarantee, which is why the rasterizer
/// checks bounds defensively.)
pub proof fn lemma_bounding_box_mode_covers(samples: Seq<VoxelSample>, d: Dimensions)
    requires
        spec_dims_from_box(scan_box(samples)) == Ok::<Dimensions, PipelineError>(d),
        forall|j: int|
            0 <= j < samples.len() && is_voxel(#[trigger] samples[j]) ==> samples[j].pos.x >= 0
                && samples[j].pos.y >= 0 && samples[j].pos.z >= 0,
    ensures
        all_voxels_in_range(d, samples),
{
    let b = scan_box(samples);
    let points = voxel_positions(samples);
    lemma_accumulate_componentwise(points);
    assert forall|j: int|
        0 <= j < samples.len() && is_voxel(#[trigger] samples[j]) implies d.spec_in_range(
        samples[j].pos,
    ) by {
        lemma_voxel_position_present(samples, j);
        let k = choose|k: int| 0 <= k < points.len() && points[k] == samples[j].pos;
        assert(b.min.x <= points[k].x <= b.max.x);
        assert(b.min.y <= points[k].y <= b.max.y);
        assert(b.min.z <= points[k].z <= b.max.z);
        assert(!b.spec_is_degenerate());
    }
}

/// Whether the encoded output of shape `d` fits in one addressable buffer.
pub open spec fn spec_output_fits(d: Dimensions) -> bool {
    12 + 8 * d.spec_total() <= usize::MAX
}

/// The whole sparse-to-dense conversion on one buffered traversal: resolves
/// the shape, scatters every voxel-level sample into a fresh all-zero dense
/// array (skipping coarser levels, one warning each), and encodes the result
/// in the fixed little-endian layout.
///
/// Success is owed exactly when the shape resolves (see `spec_resolve`), the
/// encoded output is addressable, and every voxel-level sample lies inside
/// the shape; otherwise the one failing condition is reported and nothing is
/// written anywhere.
pub fn convert(samples: &Vec<VoxelSample>, sizing: &SizingMode) -> (r: Result<
    ConversionOutput,
    PipelineError,
>)
    ensures
        (match spec_resolve(samples@, *sizing) {
            Err(e) => r matches Err(e2) && e2 == e,
            Ok(d) => {
                if !spec_output_fits(d) {
                    r matches Err(e) && e == PipelineError::DimensionOverflow
                } else if !all_voxels_in_range(d, samples@) {
                    r matches Err(e) && e == PipelineError::IndexOutOfRange
                } else {
                    r matches Ok(out) && out.dims == d && out.cells@ == raster_fold(d, samples@)
                        && out.encoded@ == spec_encode(d, raster_fold(d, samples@))
                        && out.voxel_count == spec_voxel_count(samples@)
                        && out.non_voxel_warnings == samples@.len() - spec_voxel_count(samples@)
                        && out.peak_bits == peak_fold(samples@)
                }
            },
        }),
{
    let d = match resolve_dimensions(samples, sizing) {
        Ok(d) => d,
        Err(e) => {
            return Err(e);
        },
    };
    let total = d.total();
    if total > (usize::MAX - 12) / 8 {
        return Err(PipelineError::DimensionOverflow);
    }
    let cells = match rasterize(&d, samples) {
        Ok(c) => c,
        Err(e) => {
            return Err(e);
        },
    };
    let encoded = encode(&d, &cells);
    let voxel_count = count_voxels(samples);
    proof {
        lemma_voxel_count_bounds(samples@);
    }
    let non_voxel_warnings = samples.len() - voxel_count;
    let peak_bits = peak_density_bits(samples);
    Ok(
        ConversionOutput {
            dims: d,
            cells,
            encoded,
            voxel_count,
            non_voxel_warnings,
            peak_bits,
        },
    )
}

} // verus!
