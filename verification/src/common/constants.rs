use vstd::prelude::*;

verus! {

/// Number of cells along one axis of a chunk.
pub const CHUNK_SIZE: usize = 32;

/// Number of cells in one horizontal layer of a chunk.
#[verifier::nonlinear]
pub const CHUNK_AREA: usize = CHUNK_SIZE * CHUNK_SIZE;

/// Number of voxels needed along one axis of a chunk.
pub const CHUNK_VSIZE: usize = CHUNK_SIZE + 1;

/// Number of voxels needed along a plane of a chunk.
#[verifier::nonlinear]
pub const CHUNK_VAREA: usize = CHUNK_VSIZE * CHUNK_VSIZE;

/// Number of voxels needed for a whole chunk.
#[verifier::nonlinear]
pub const CHUNK_VVOLUME: usize = CHUNK_VSIZE * CHUNK_VSIZE * CHUNK_VSIZE;

/// Number of chunks that are loaded in one go.
pub const CHUNK_LOAD_AT_ONCE: usize = 6;

/// How far around a position, in chunks, chunks are loaded.
pub const CHUNK_LOAD_RANGE: usize = 6;

/// Raw units in one whole unit: every density, position and normal is an
/// integer that counts thousandths.
pub const SCALE: i64 = 1000;

/// One half, in raw units; the canonical midpoint of a cell edge.
pub const HALF: i64 = 500;

/// Ground level, in raw units; the ground can go below this height.
pub const GROUND_LEVEL: i32 = -20000;

/// Highest terrain, in raw units.
pub const MAX_TERRAIN_HEIGHT: i32 = 20000;

/// Largest edge length of a voxel field: local coordinates are `u8`.
pub const MAX_FIELD_SIZE: usize = 256;

/// Density of a cell of a freshly allocated field (minus one: fully empty).
pub const EMPTY_VALUE: i32 = -1000;

/// Largest density that filling can reach (plus one).
pub const FULL_VALUE: i32 = 1000;

/// Density written over the solid cells of foreign regions when one region is
/// isolated (minus one tenth).
pub const FOREIGN_VALUE: i32 = -100;

} // verus!
