use vstd::prelude::*;

use crate::bbox::AABB;
use crate::types::Coord;
use crate::types::MetadataValue;
use crate::types::PipelineError;

verus! {

/// The shape of the dense output: one non-negative size per axis.
///
/// A well-formed value fits the output header (each size fits a signed 32-bit
/// field) and names a cell count that the machine can address, so that a flat
/// array of that many cells can exist.
#[derive(Clone, Copy, Debug, PartialEq, Eq, Structural)]
pub struct Dimensions {
    pub x: usize,
    pub y: usize,
    pub z: usize,
}

impl Dimensions {
    /// The number of cells of a dense array of this shape.
    pub open spec fn spec_total(self) -> int {
        self.x * self.y * self.z
    }

    /// Every size fits the header's signed 32-bit field, and the cell count
    /// (including the intermediate x-by-y plane) is addressable.
    pub open spec fn wf(self) -> bool {
        &&& self.x <= i32::MAX
        &&& self.y <= i32::MAX
        &&& self.z <= i32::MAX
        &&& self.x * self.y <= usize::MAX
        &&& self.spec_total() <= usize::MAX
    }

    /// When `new(x, y, z)` accepts the requested shape.
    pub open spec fn spec_fits(x: usize, y: usize, z: usize) -> bool {
        &&& x <= i32::MAX
        &&& y <= i32::MAX
        &&& z <= i32::MAX
        &&& x * y <= usize::MAX
        &&& x * y * z <= usize::MAX
    }

    /// Builds a well-formed shape, or reports that the requested one exceeds
    /// the header field or the machine's address range.
    pub fn new(x: usize, y: usize, z: usize) -> (r: Result<Dimensions, PipelineError>)
        ensures
            Self::spec_fits(x, y, z) ==> r == Ok::<Dimensions, PipelineError>(
                Dimensions { x, y, z },
            ),
            !Self::spec_fits(x, y, z) ==> r == Err::<Dimensions, PipelineError>(
                PipelineError::DimensionOverflow,
            ),
            r matches Ok(d) ==> d.wf(),
    {
        let max_size: usize = 0x7fff_ffff;
        if x > max_size || y > max_size || z > max_size {
            return Err(PipelineError::DimensionOverflow);
        }
        match x.checked_mul(y) {
            None => Err(PipelineError::DimensionOverflow),
            Some(xy) => match xy.checked_mul(z) {
                None => Err(PipelineError::DimensionOverflow),
                Some(_) => Ok(Dimensions { x, y, z }),
            },
        }
    }

    /// The number of cells of a dense array of this shape.
    pub fn total(&self) -> (r: usize)
        requires
            self.wf(),
        ensures
            r == self.spec_total(),
    {
        self.x * self.y * self.z
    }

    /// Whether `c` names a cell of a dense array of this shape.
    pub open spec fn spec_in_range(self, c: Coord) -> bool {
        &&& 0 <= c.x < self.x
        &&& 0 <= c.y < self.y
        &&& 0 <= c.z < self.z
    }

    /// The row-major cell number of `c`, with x varying fastest.
    pub open spec fn spec_index(self, c: Coord) -> int {
        c.x + c.y * self.x + c.z * self.x * self.y
    }

    /// Whether `c` names a cell of a dense array of this shape.
    pub fn in_range(&self, c: Coord) -> (r: bool)
        ensures
            r == self.spec_in_range(c),
    {
        0 <= c.x && (c.x as u64) < (self.x as u64) && 0 <= c.y && (c.y as u64) < (self.y as u64)
            && 0 <= c.z && (c.z as u64) < (self.z as u64)
    }

    /// The row-major cell number of `c`; always a valid index into a dense
    /// array of `spec_total()` cells.
    pub fn index(&self, c: Coord) -> (r: usize)
        requires
            self.wf(),
            self.spec_in_range(c),
        ensures
            r == self.spec_index(c),
            r < self.spec_total(),
    {
        proof {
            lemma_index_in_bounds(*self, c);
        }
        (c.x as usize) + (c.y as usize) * self.x + (c.z as usize) * (self.x * self.y)
    }
}

/// The row-major cell number of an in-range position is a valid index: it is
/// non-negative and below the cell count.
pub proof fn lemma_index_in_bounds(d: Dimensions, c: Coord)
    requires
        d.wf(),
        d.spec_in_range(c),
    ensures
        0 <= d.spec_index(c) < d.spec_total(),
        c.x + c.y * d.x + c.z * (d.x * d.y) == d.spec_index(c),
{
    assert(0 <= c.x + c.y * d.x + c.z * d.x * d.y < d.x * d.y * d.z) by (nonlinear_arith)
        requires
            0 <= c.x < d.x,
            0 <= c.y < d.y,
            0 <= c.z < d.z,
    ;
    assert(c.z * d.x * d.y == c.z * (d.x * d.y)) by (nonlinear_arith);
}

/// The row-major index formula is injective over in-range positions: two
/// distinct cells never share an index, so every in-range position names its
/// own cell, reproducibly.
pub proof fn lemma_index_injective(d: Dimensions, c1: Coord, c2: Coord)
    requires
        d.wf(),
        d.spec_in_range(c1),
        d.spec_in_range(c2),
        d.spec_index(c1) == d.spec_index(c2),
    ensures
        c1 == c2,
{
    let i = d.spec_index(c1);
    assert(c1.x == c2.x && c1.y == c2.y && c1.z == c2.z) by (nonlinear_arith)
        requires
            0 <= c1.x < d.x,
            0 <= c1.y < d.y,
            0 <= c1.z < d.z,
            0 <= c2.x < d.x,
            0 <= c2.y < d.y,
            0 <= c2.z < d.z,
            c1.x + c1.y * d.x + c1.z * d.x * d.y == c2.x + c2.y * d.x + c2.z * d.x * d.y,
    ;
}

/// The first and last cells of a non-empty shape sit at the two ends of the
/// index range: the origin maps to 0 and the far corner to the cell count
/// minus one.
pub proof fn lemma_index_corners(d: Dimensions)
    requires
        d.wf(),
        d.x > 0,
        d.y > 0,
        d.z > 0,
    ensures
        d.spec_index(Coord { x: 0, y: 0, z: 0 }) == 0,
        d.spec_index(
            Coord { x: (d.x - 1) as i64, y: (d.y - 1) as i64, z: (d.z - 1) as i64 },
        ) == d.spec_total() - 1,
{
    assert((d.x - 1) + (d.y - 1) * d.x + (d.z - 1) * d.x * d.y == d.x * d.y * d.z - 1)
        by (nonlinear_arith)
        requires
            d.x > 0,
            d.y > 0,
            d.z > 0,
    ;
    assert(0 + 0 * d.x + 0 * d.x * d.y == 0) by (nonlinear_arith);
}

/// The axis sizes read from a degenerate or negative extent: a box that never
/// saw a point, or whose maximum lies on the negative side of an axis, spans
/// no cell on that axis.
pub open spec fn spec_box_size(max_c: i64) -> int {
    if max_c < 0 {
        0
    } else {
        max_c + 1
    }
}

/// When `from_bounding_box` accepts the extent.
pub open spec fn spec_box_fits(b: AABB) -> bool {
    b.spec_is_degenerate() || {
        &&& Dimensions::spec_fits(
            spec_box_size(b.max.x) as usize,
            spec_box_size(b.max.y) as usize,
            spec_box_size(b.max.z) as usize,
        )
        &&& spec_box_size(b.max.x) <= usize::MAX
        &&& spec_box_size(b.max.y) <= usize::MAX
        &&& spec_box_size(b.max.z) <= usize::MAX
    }
}

/// The shape that bounding-box mode derives from the extent `b`.
pub open spec fn spec_dims_from_box(b: AABB) -> Result<Dimensions, PipelineError> {
    if b.spec_is_degenerate() {
        Ok(Dimensions { x: 0, y: 0, z: 0 })
    } else if spec_box_fits(b) {
        Ok(
            Dimensions {
                x: spec_box_size(b.max.x) as usize,
                y: spec_box_size(b.max.y) as usize,
                z: spec_box_size(b.max.z) as usize,
            },
        )
    } else {
        Err(PipelineError::DimensionOverflow)
    }
}

/// Bounding-box mode: each axis size is one past the largest coordinate seen
/// on that axis (zero where the box never reached the non-negative side), and
/// an accumulator that never saw a point yields the explicit empty shape
/// (0, 0, 0) rather than a shape read out of the identity extremes.
pub fn from_bounding_box(b: &AABB) -> (r: Result<Dimensions, PipelineError>)
    ensures
        r == spec_dims_from_box(*b),
        b.spec_is_degenerate() ==> r == Ok::<Dimensions, PipelineError>(
            Dimensions { x: 0, y: 0, z: 0 },
        ),
        r matches Ok(d) ==> d.wf(),
{
    if b.is_degenerate() {
        return Ok(Dimensions { x: 0, y: 0, z: 0 });
    }
    let sx = match axis_size(b.max.x) {
        Some(v) => v,
        None => {
            return Err(PipelineError::DimensionOverflow);
        },
    };
    let sy = match axis_size(b.max.y) {
        Some(v) => v,
        None => {
            return Err(PipelineError::DimensionOverflow);
        },
    };
    let sz = match axis_size(b.max.z) {
        Some(v) => v,
        None => {
            return Err(PipelineError::DimensionOverflow);
        },
    };
    Dimensions::new(sx, sy, sz)
}

/// One past the largest coordinate seen on an axis, clamped to zero below the
/// origin; `None` where that count cannot be addressed.
fn axis_size(max_c: i64) -> (r: Option<usize>)
    ensures
        spec_box_size(max_c) <= usize::MAX ==> r == Some(spec_box_size(max_c) as usize),
        spec_box_size(max_c) > usize::MAX ==> r is None,
{
    if max_c < 0 {
        Some(0)
    } else {
        let size: u64 = (max_c as u64) + 1;
        if size <= (usize::MAX as u64) {
            Some(size as usize)
        } else {
            None
        }
    }
}

/// The shape that metadata mode derives from the looked-up value: absent keys
/// and non-vector values are rejected, and each vector component is read as a
/// size, negative components standing for no cell on that axis.
pub open spec fn spec_dims_from_metadata(found: Option<MetadataValue>) -> Result<
    Dimensions,
    PipelineError,
> {
    match found {
        None => Err(PipelineError::MetadataKeyNotFound),
        Some(MetadataValue::Other) => Err(PipelineError::MetadataWrongType),
        Some(MetadataValue::Vec3i(vx, vy, vz)) => {
            if spec_meta_fits(vx, vy, vz) {
                Ok(
                    Dimensions {
                        x: spec_meta_size(vx) as usize,
                        y: spec_meta_size(vy) as usize,
                        z: spec_meta_size(vz) as usize,
                    },
                )
            } else {
                Err(PipelineError::DimensionOverflow)
            }
        },
    }
}

/// A metadata vector component read as a size: negative components span no
/// cell.
pub open spec fn spec_meta_size(v: i64) -> int {
    if v < 0 {
        0
    } else {
        v as int
    }
}

/// When `from_metadata` accepts the vector.
pub open spec fn spec_meta_fits(vx: i64, vy: i64, vz: i64) -> bool {
    &&& spec_meta_size(vx) <= usize::MAX
    &&& spec_meta_size(vy) <= usize::MAX
    &&& spec_meta_size(vz) <= usize::MAX
    &&& Dimensions::spec_fits(
        spec_meta_size(vx) as usize,
        spec_meta_size(vy) as usize,
        spec_meta_size(vz) as usize,
    )
}

/// Metadata mode: reports a missing key, a value of the wrong variant, or a
/// vector that names an unrepresentable shape; otherwise the three components
/// become the axis sizes, negative ones clamped to zero.
pub fn from_metadata(found: &Option<MetadataValue>) -> (r: Result<Dimensions, PipelineError>)
    ensures
        r == spec_dims_from_metadata(*found),
        r matches Ok(d) ==> d.wf(),
{
    match found {
        None => Err(PipelineError::MetadataKeyNotFound),
        Some(MetadataValue::Other) => Err(PipelineError::MetadataWrongType),
        Some(MetadataValue::Vec3i(vx, vy, vz)) => {
            let sx = match meta_size(*vx) {
                Some(v) => v,
                None => {
                    return Err(PipelineError::DimensionOverflow);
                },
            };
            let sy = match meta_size(*vy) {
                Some(v) => v,
                None => {
                    return Err(PipelineError::DimensionOverflow);
                },
            };
            let sz = match meta_size(*vz) {
                Some(v) => v,
                None => {
                    return Err(PipelineError::DimensionOverflow);
                },
            };
            Dimensions::new(sx, sy, sz)
        },
    }
}

/// A metadata vector component read as a size; `None` where the component
/// cannot be addressed.
fn meta_size(v: i64) -> (r: Option<usize>)
    ensures
        spec_meta_size(v) <= usize::MAX ==> r == Some(spec_meta_size(v) as usize),
        spec_meta_size(v) > usize::MAX ==> r is None,
{
    if v < 0 {
        Some(0)
    } else if (v as u64) <= (usize::MAX as u64) {
        Some(v as usize)
    } else {
        None
    }
}

} // verus!
