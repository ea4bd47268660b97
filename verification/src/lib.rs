//! Converts a sparse, hierarchical volumetric grid into a dense, regularly
//! strided 3D array and encodes that array in a flat little-endian layout.
//!
//! The pipeline works on plain buffered samples: the caller walks the source
//! container once, hands over each (position, value, level) triple, and gets
//! back the resolved shape, the dense cells (as 64-bit IEEE-754 bit patterns)
//! and their encoding, together with diagnostic counters.

pub mod bbox;
pub mod codec;
pub mod dims;
pub mod pipeline;
pub mod raster;
pub mod types;

pub use bbox::AABB;
pub use types::Coord;
pub use types::Level;
pub use types::MetadataValue;
pub use types::PipelineError;
pub use types::VoxelSample;
