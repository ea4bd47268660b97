use vstd::prelude::*;

use crate::dims::Dimensions;
use crate::types::Level;
use crate::types::PipelineError;
use crate::types::VoxelSample;
use crate::types::is_voxel;

verus! {

/// A dense array of `n` cells, every one holding the bit pattern of 0.0: the
/// density of a coordinate no sample ever reached.
pub open spec fn zero_cells(n: int) -> Seq<u64> {
    Seq::new(n as nat, |i: int| 0u64)
}

/// What one sample does to the dense array: a voxel-level, in-range sample
/// overwrites its cell (last write wins); every other sample leaves the array
/// unchanged.
pub open spec fn raster_step(cells: Seq<u64>, d: Dimensions, s: VoxelSample) -> Seq<u64> {
    if is_voxel(s) && d.spec_in_range(s.pos) {
        cells.update(d.spec_index(s.pos), s.value_bits)
    } else {
        cells
    }
}

/// The dense array obtained by scattering the samples, in order, over a fresh
/// all-zero array of shape `d`.
pub open spec fn raster_fold(d: Dimensions, samples: Seq<VoxelSample>) -> Seq<u64>
    decreases samples.len(),
{
    if samples.len() == 0 {
        zero_cells(d.spec_total())
    } else {
        raster_step(raster_fold(d, samples.drop_last()), d, samples.last())
    }
}

/// Whether every voxel-level sample names a cell of shape `d`.
pub open spec fn all_voxels_in_range(d: Dimensions, samples: Seq<VoxelSample>) -> bool {
    forall|i: int|
        0 <= i < samples.len() && is_voxel(#[trigger] samples[i]) ==> d.spec_in_range(
            samples[i].pos,
        )
}

/// The number of voxel-level samples in `s`.
pub open spec fn spec_voxel_count(s: Seq<VoxelSample>) -> int
    decreases s.len(),
{
    if s.len() == 0 {
        0
    } else {
        spec_voxel_count(s.drop_last()) + if is_voxel(s.last()) {
            1int
        } else {
            0int
        }
    }
}

/// The voxel count never exceeds the number of samples.
pub proof fn lemma_voxel_count_bounds(s: Seq<VoxelSample>)
    ensures
        0 <= spec_voxel_count(s) <= s.len(),
    decreases s.len(),
{
    if s.len() > 0 {
        lemma_voxel_count_bounds(s.drop_last());
    }
}

/// Unfolds `raster_fold` one sample at a time along a prefix.
proof fn lemma_raster_take_step(d: Dimensions, s: Seq<VoxelSample>, i: int)
    requires
        0 <= i < s.len(),
    ensures
        raster_fold(d, s.take(i + 1)) == raster_step(raster_fold(d, s.take(i)), d, s[i]),
{
    assert(s.take(i + 1).drop_last() =~= s.take(i));
    assert(s.take(i + 1).last() == s[i]);
}

/// Unfolds `spec_voxel_count` one sample at a time along a prefix.
proof fn lemma_count_take_step(s: Seq<VoxelSample>, i: int)
    requires
        0 <= i < s.len(),
    ensures
        spec_voxel_count(s.take(i + 1)) == spec_voxel_count(s.take(i)) + if is_voxel(s[i]) {
            1int
        } else {
            0int
        },
{
    assert(s.take(i + 1).drop_last() =~= s.take(i));
    assert(s.take(i + 1).last() == s[i]);
}

/// Unfolds `peak_fold` one sample at a time along a prefix.
proof fn lemma_peak_take_step(s: Seq<VoxelSample>, i: int)
    requires
        0 <= i < s.len(),
    ensures
        peak_fold(s.take(i + 1)) == if is_voxel(s[i]) {
            bits_max(peak_fold(s.take(i)), s[i].value_bits)
        } else {
            peak_fold(s.take(i))
        },
{
    assert(s.take(i + 1).drop_last() =~= s.take(i));
    assert(s.take(i + 1).last() == s[i]);
}

/// Counts the voxel-level samples: the cells the rasterizer will fill, as
/// against the total cell capacity; coarser-level samples are excluded.
pub fn count_voxels(samples: &Vec<VoxelSample>) -> (r: usize)
    ensures
        r == spec_voxel_count(samples@),
{
    let mut count: usize = 0;
    let mut i: usize = 0;
    while i < samples.len()
        invariant
            0 <= i <= samples@.len(),
            count == spec_voxel_count(samples@.take(i as int)),
            count <= i,
        decreases samples@.len() - i,
    {
        proof {
            lemma_count_take_step(samples@, i as int);
        }
        if matches!(samples[i].level, Level::Voxel) {
            count = count + 1;
        }
        i = i + 1;
    }
    proof {
        assert(samples@.take(samples@.len() as int) =~= samples@);
    }
    count
}

/// Maps a 64-bit IEEE-754 bit pattern to a key whose unsigned order is the
/// IEEE-754 total order of the values: negative patterns are complemented,
/// non-negative ones get the sign bit set.
pub open spec fn spec_total_order_key(b: u64) -> u64 {
    if b >= 0x8000_0000_0000_0000 {
        !b
    } else {
        b | 0x8000_0000_0000_0000
    }
}

/// The larger of two bit patterns under the IEEE-754 total order; the first
/// argument wins ties.
pub open spec fn bits_max(a: u64, b: u64) -> u64 {
    if spec_total_order_key(b) > spec_total_order_key(a) {
        b
    } else {
        a
    }
}

/// The peak value written by the rasterizer, as a bit pattern: the total-order
/// maximum of 0.0 and every voxel-level sample's value. Diagnostic only.
pub open spec fn peak_fold(s: Seq<VoxelSample>) -> u64
    decreases s.len(),
{
    if s.len() == 0 {
        0u64
    } else if is_voxel(s.last()) {
        bits_max(peak_fold(s.drop_last()), s.last().value_bits)
    } else {
        peak_fold(s.drop_last())
    }
}

/// The total-order key, computed.
fn total_order_key(b: u64) -> (r: u64)
    ensures
        r == spec_total_order_key(b),
{
    if b >= 0x8000_0000_0000_0000 {
        !b
    } else {
        b | 0x8000_0000_0000_0000
    }
}

/// The peak of the voxel-level values, as a bit pattern, starting from 0.0;
/// the order is the IEEE-754 total order, under which every negative value
/// lies below 0.0.
pub fn peak_density_bits(samples: &Vec<VoxelSample>) -> (r: u64)
    ensures
        r == peak_fold(samples@),
{
    let mut peak: u64 = 0;
    let mut i: usize = 0;
    while i < samples.len()
        invariant
            0 <= i <= samples@.len(),
            peak == peak_fold(samples@.take(i as int)),
        decreases samples@.len() - i,
    {
        proof {
            lemma_peak_take_step(samples@, i as int);
        }
        let s = samples[i];
        if matches!(s.level, Level::Voxel) {
            if total_order_key(s.value_bits) > total_order_key(peak) {
                peak = s.value_bits;
            }
        }
        i = i + 1;
    }
    proof {
        assert(samples@.take(samples@.len() as int) =~= samples@);
    }
    peak
}

/// Scatters every voxel-level sample into a fresh all-zero dense array of
/// shape `d` by the row-major index formula, last write winning; the array is
/// returned only if every voxel-level sample lies inside the shape, and a
/// sample outside it is reported rather than written anywhere.
pub fn rasterize(d: &Dimensions, samples: &Vec<VoxelSample>) -> (r: Result<
    Vec<u64>,
    PipelineError,
>)
    requires
        d.wf(),
    ensures
        all_voxels_in_range(*d, samples@) ==> (r matches Ok(cells) && cells@ == raster_fold(
            *d,
            samples@,
        ) && cells@.len() == d.spec_total()),
        !all_voxels_in_range(*d, samples@) ==> r == Err::<Vec<u64>, PipelineError>(
            PipelineError::IndexOutOfRange,
        ),
{
    let total = d.total();
    let mut cells: Vec<u64> = Vec::new();
    while cells.len() < total
        invariant
            cells@.len() <= total,
            total == d.spec_total(),
            cells@ =~= zero_cells(cells@.len() as int),
        decreases total - cells@.len(),
    {
        cells.push(0);
    }
    assert(cells@ =~= zero_cells(d.spec_total()));
    let mut i: usize = 0;
    while i < samples.len()
        invariant
            d.wf(),
            0 <= i <= samples@.len(),
            cells@.len() == d.spec_total(),
            cells@ == raster_fold(*d, samples@.take(i as int)),
            all_voxels_in_range(*d, samples@.take(i as int)),
        decreases samples@.len() - i,
    {
        proof {
            lemma_raster_take_step(*d, samples@, i as int);
        }
        let s = samples[i];
        if matches!(s.level, Level::Voxel) {
            if !d.in_range(s.pos) {
                return Err(PipelineError::IndexOutOfRange);
            }
            let idx = d.index(s.pos);
            cells[idx] = s.value_bits;
        }
        i = i + 1;
        proof {
            assert forall|j: int|
                0 <= j < samples@.take(i as int).len() && is_voxel(
                    #[trigger] samples@.take(i as int)[j],
                ) implies d.spec_in_range(samples@.take(i as int)[j].pos) by {
                assert(samples@.take(i as int)[j] == samples@[j]);
            }
        }
    }
    proof {
        assert(samples@.take(samples@.len() as int) =~= samples@);
    }
    Ok(cells)
}

} // verus!
