//! Builds the vertex graph of a triangulated sphere, assigns each vertex to
//! the nearest vertex of a coarser sphere, and encodes both in the
//! big-endian `.gra` graph file.
use vstd::prelude::*;

pub mod adjacency;
pub mod grouping;
pub mod format;

verus! {

/// Why a graph cannot be built or encoded.
#[derive(Debug, Clone, Copy, PartialEq, Eq, Structural)]
pub enum GraphError {
    /// The vertex count does not fit the 32-bit count field.
    CapacityExceeded,
    /// A triangle names a vertex index at or past the vertex count.
    IndexOutOfRange,
    /// The coarse mesh is not strictly smaller than the fine mesh.
    CoarseNotSmaller,
}

} // verus!
