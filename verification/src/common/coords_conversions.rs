use vstd::prelude::*;
use vstd::arithmetic::div_mod::lemma_fundamental_div_mod_converse;
use vstd::std_specs::convert::FromSpecImpl;
use vstd::std_specs::ops::MulSpecImpl;
use crate::common::constants::{CHUNK_SIZE, CHUNK_VAREA, CHUNK_VSIZE, SCALE};
use crate::common::coords::{
    ChunkCoords,
    Coords,
    Coords2D,
    Fixed,
    VoxelCoords,
    VoxelCoords2D,
    WorldCoords,
};
use crate::common::math::{div_toward_zero, trunc_div};

verus! {

/// Farthest from the origin, along one axis, that a chunk may lie for
/// `from_voxel` to give its position.
pub const CHUNK_REACH: i64 = 0x100_0000_0000;

/// Largest magnitude of a factor of a fixed-point product.
pub const FACTOR_LIMIT: i64 = 0x8000_0000;

/// An integer kept within the range of `i32`.
pub open spec fn kept_in_i32(a: int) -> int {
    if a < i32::MIN {
        i32::MIN as int
    } else if a > i32::MAX {
        i32::MAX as int
    } else {
        a
    }
}

/// The place inside its chunk, along one axis, of a position given in whole
/// cells: the remainder by the size of a chunk, never negative.
pub open spec fn place_in_chunk(whole: int) -> int {
    kept_in_i32(whole) % (CHUNK_SIZE as int)
}

/// The chunk, along one axis, that a coordinate of `raw` thousandths lies
/// in: the whole cells, rounded toward zero, divided by the size of a chunk
/// and rounded toward zero again, and one less for a coordinate that is not
/// positive.
pub open spec fn chunk_of(raw: int) -> int {
    if raw > 0 {
        trunc_div(trunc_div(raw, SCALE as int), CHUNK_SIZE as int)
    } else {
        trunc_div(trunc_div(raw, SCALE as int), CHUNK_SIZE as int) - 1
    }
}

fn keep_in_i32(a: i64) -> (kept: i32)
    ensures
        kept == kept_in_i32(a as int),
{
    if a < i32::MIN as i64 {
        i32::MIN
    } else if a > i32::MAX as i64 {
        i32::MAX
    } else {
        a as i32
    }
}

/// The remainder of `whole` by the size of a chunk, never negative.
fn chunk_remainder(whole: i32) -> (place: u8)
    ensures
        place == whole as int % (CHUNK_SIZE as int),
        place < CHUNK_SIZE,
{
    if whole >= 0 {
        (whole % 32) as u8
    } else {
        let back: i64 = -(whole as i64);
        let rest: i64 = back % 32;
        let chunks: i64 = back / 32;
        if rest == 0 {
            proof {
                lemma_fundamental_div_mod_converse(whole as int, 32, -chunks, 0);
            }
            0
        } else {
            proof {
                lemma_fundamental_div_mod_converse(whole as int, 32, -chunks - 1, 32 - rest);
            }
            (32 - rest) as u8
        }
    }
}

fn chunk_along_axis(raw: i64) -> (chunk: i64)
    requires
        raw > i64::MIN,
    ensures
        chunk == chunk_of(raw as int),
{
    let whole = div_toward_zero(raw, SCALE);
    if raw > 0 {
        div_toward_zero(whole, CHUNK_SIZE as i64)
    } else {
        div_toward_zero(whole, CHUNK_SIZE as i64) - 1
    }
}

impl Coords<Fixed> {
    /// The position in the world of the voxel `voxel_coords` of the chunk
    /// `chunk_coords`.
    pub fn from_voxel(chunk_coords: ChunkCoords, voxel_coords: VoxelCoords) -> (pos: WorldCoords)
        requires
            chunk_coords.within(CHUNK_REACH as int),
        ensures
            pos.ints() == (Coords::<int> {
                x: (CHUNK_SIZE * chunk_coords.x + voxel_coords.x) * SCALE,
                y: (CHUNK_SIZE * chunk_coords.y + voxel_coords.y) * SCALE,
                z: (CHUNK_SIZE * chunk_coords.z + voxel_coords.z) * SCALE,
            }),
    {
        WorldCoords::new(
            (CHUNK_SIZE as i64 * chunk_coords.x + voxel_coords.x as i64) * SCALE,
            (CHUNK_SIZE as i64 * chunk_coords.y + voxel_coords.y as i64) * SCALE,
            (CHUNK_SIZE as i64 * chunk_coords.z + voxel_coords.z as i64) * SCALE,
        )
    }
}

impl Coords<i64> {
    /// The chunk that the position `v` lies in.
    pub fn from_vec(v: WorldCoords) -> (chunk: ChunkCoords)
        requires
            v.x.0 > i64::MIN,
            v.y.0 > i64::MIN,
            v.z.0 > i64::MIN,
        ensures
            chunk.ints() == (Coords::<int> {
                x: chunk_of(v.x.0 as int),
                y: chunk_of(v.y.0 as int),
                z: chunk_of(v.z.0 as int),
            }),
    {
        Coords {
            x: chunk_along_axis(v.x.into_inner()),
            y: chunk_along_axis(v.y.into_inner()),
            z: chunk_along_axis(v.z.into_inner()),
        }
    }
}

/// Scales a position by a fixed-point factor; every component is rounded
/// toward zero.
impl core::ops::Mul<Fixed> for Coords<Fixed> {
    type Output = Coords<Fixed>;

    fn mul(self, rhs: Fixed) -> (r: Coords<Fixed>) {
        proof {
            crate::common::coords::lemma_product_bound(
                self.x.0 as int,
                rhs.0 as int,
                FACTOR_LIMIT as int,
            );
            crate::common::coords::lemma_product_bound(
                self.y.0 as int,
                rhs.0 as int,
                FACTOR_LIMIT as int,
            );
            crate::common::coords::lemma_product_bound(
                self.z.0 as int,
                rhs.0 as int,
                FACTOR_LIMIT as int,
            );
        }
        Coords {
            x: Fixed(div_toward_zero(self.x.0 * rhs.0, SCALE)),
            y: Fixed(div_toward_zero(self.y.0 * rhs.0, SCALE)),
            z: Fixed(div_toward_zero(self.z.0 * rhs.0, SCALE)),
        }
    }
}

impl MulSpecImpl<Fixed> for Coords<Fixed> {
    open spec fn obeys_mul_spec() -> bool {
        true
    }

    open spec fn mul_req(self, rhs: Fixed) -> bool {
        &&& -FACTOR_LIMIT <= rhs.0 <= FACTOR_LIMIT
        &&& -FACTOR_LIMIT <= self.x.0 <= FACTOR_LIMIT
        &&& -FACTOR_LIMIT <= self.y.0 <= FACTOR_LIMIT
        &&& -FACTOR_LIMIT <= self.z.0 <= FACTOR_LIMIT
    }

    open spec fn mul_spec(self, rhs: Fixed) -> Coords<Fixed> {
        Coords {
            x: Fixed(trunc_div(self.x.0 * rhs.0, SCALE as int) as i64),
            y: Fixed(trunc_div(self.y.0 * rhs.0, SCALE as int) as i64),
            z: Fixed(trunc_div(self.z.0 * rhs.0, SCALE as int) as i64),
        }
    }
}

/// The floor of `raw` thousandths in whole cells.
fn floor_cells(raw: i64) -> (whole: i64)
    ensures
        whole == raw as int / (SCALE as int),
{
    if raw >= 0 {
        raw / SCALE
    } else {
        let back: i64 = -(raw + 1);
        let cells: i64 = back / SCALE;
        let rest: i64 = back % SCALE;
        proof {
            lemma_fundamental_div_mod_converse(raw as int, 1000, -cells - 1, 999 - rest);
        }
        -cells - 1
    }
}

/// The whole cells in `raw` thousandths, rounded toward zero.
fn whole_cells_toward_zero(raw: i64) -> (whole: i64)
    ensures
        raw > i64::MIN ==> whole == trunc_div(raw as int, SCALE as int),
        raw == i64::MIN ==> whole == trunc_div(raw as int + 1, SCALE as int),
{
    if raw == i64::MIN {
        div_toward_zero(raw + 1, SCALE)
    } else {
        div_toward_zero(raw, SCALE)
    }
}

/// The whole cells along one axis of a position, rounded toward zero, as
/// the conversion to voxel coordinates takes them.
pub open spec fn cells_toward_zero(raw: int) -> int {
    if raw > i64::MIN {
        trunc_div(raw, SCALE as int)
    } else {
        trunc_div(raw + 1, SCALE as int)
    }
}

/// The voxel, inside its chunk, that a position in the world lies in.
impl From<WorldCoords> for VoxelCoords {
    fn from(world_coords: WorldCoords) -> (r: VoxelCoords) {
        Coords {
            x: chunk_remainder(keep_in_i32(whole_cells_toward_zero(world_coords.x.0))),
            y: chunk_remainder(keep_in_i32(whole_cells_toward_zero(world_coords.y.0))),
            z: chunk_remainder(keep_in_i32(whole_cells_toward_zero(world_coords.z.0))),
        }
    }
}

impl FromSpecImpl<WorldCoords> for VoxelCoords {
    open spec fn obeys_from_spec() -> bool {
        true
    }

    open spec fn from_spec(world_coords: WorldCoords) -> VoxelCoords {
        Coords {
            x: place_in_chunk(cells_toward_zero(world_coords.x.0 as int)) as u8,
            y: place_in_chunk(cells_toward_zero(world_coords.y.0 as int)) as u8,
            z: place_in_chunk(cells_toward_zero(world_coords.z.0 as int)) as u8,
        }
    }
}

/// The column of voxels, inside its chunk, that a position in the world
/// lies in: here the coordinates are rounded down.
impl From<WorldCoords> for VoxelCoords2D {
    fn from(world_coords: WorldCoords) -> (r: VoxelCoords2D) {
        Coords2D {
            z: chunk_remainder(keep_in_i32(floor_cells(world_coords.z.0))),
            x: chunk_remainder(keep_in_i32(floor_cells(world_coords.x.0))),
        }
    }
}

impl FromSpecImpl<WorldCoords> for VoxelCoords2D {
    open spec fn obeys_from_spec() -> bool {
        true
    }

    open spec fn from_spec(world_coords: WorldCoords) -> VoxelCoords2D {
        Coords2D {
            x: place_in_chunk(world_coords.x.0 as int / (SCALE as int)) as u8,
            z: place_in_chunk(world_coords.z.0 as int / (SCALE as int)) as u8,
        }
    }
}

/// Delinearizes an index into the voxels of a chunk; an index beyond the
/// chunk wraps along x.
impl From<usize> for VoxelCoords {
    fn from(index: usize) -> (r: VoxelCoords) {
        Coords {
            x: ((index / CHUNK_VAREA) % 256) as u8,
            y: ((index % CHUNK_VAREA) / CHUNK_VSIZE) as u8,
            z: (index % CHUNK_VSIZE) as u8,
        }
    }
}

impl FromSpecImpl<usize> for VoxelCoords {
    open spec fn obeys_from_spec() -> bool {
        true
    }

    open spec fn from_spec(index: usize) -> VoxelCoords {
        Coords {
            x: ((index as int / (CHUNK_VAREA as int)) % 256) as u8,
            y: ((index as int % (CHUNK_VAREA as int)) / (CHUNK_VSIZE as int)) as u8,
            z: (index as int % (CHUNK_VSIZE as int)) as u8,
        }
    }
}

/// Delinearizes an index into the columns of a chunk; an index beyond the
/// chunk wraps along z.
impl From<usize> for VoxelCoords2D {
    fn from(index: usize) -> (r: VoxelCoords2D) {
        Coords2D { x: (index % CHUNK_VSIZE) as u8, z: ((index / CHUNK_VSIZE) % 256) as u8 }
    }
}

impl FromSpecImpl<usize> for VoxelCoords2D {
    open spec fn obeys_from_spec() -> bool {
        true
    }

    open spec fn from_spec(index: usize) -> VoxelCoords2D {
        Coords2D {
            x: (index as int % (CHUNK_VSIZE as int)) as u8,
            z: ((index as int / (CHUNK_VSIZE as int)) % 256) as u8,
        }
    }
}

/// Linearizes the coordinates of a voxel of a chunk.
impl From<VoxelCoords> for usize {
    fn from(voxel_coords: VoxelCoords) -> (r: usize) {
        assert(CHUNK_VSIZE == 33);
        voxel_coords.z as usize + voxel_coords.y as usize * CHUNK_VSIZE + voxel_coords.x as usize
            * CHUNK_VSIZE * CHUNK_VSIZE
    }
}

impl FromSpecImpl<VoxelCoords> for usize {
    open spec fn obeys_from_spec() -> bool {
        true
    }

    open spec fn from_spec(voxel_coords: VoxelCoords) -> usize {
        (voxel_coords.z + voxel_coords.y * CHUNK_VSIZE + voxel_coords.x * CHUNK_VSIZE
            * CHUNK_VSIZE) as usize
    }
}

/// Linearizes the coordinates of a column of a chunk.
impl From<VoxelCoords2D> for usize {
    fn from(voxel_coords_2d: VoxelCoords2D) -> (r: usize) {
        assert(CHUNK_VSIZE == 33);
        voxel_coords_2d.z as usize + voxel_coords_2d.x as usize * CHUNK_VSIZE
    }
}

impl FromSpecImpl<VoxelCoords2D> for usize {
    open spec fn obeys_from_spec() -> bool {
        true
    }

    open spec fn from_spec(voxel_coords_2d: VoxelCoords2D) -> usize {
        (voxel_coords_2d.z + voxel_coords_2d.x * CHUNK_VSIZE) as usize
    }
}

/// The column of a voxel: its coordinates without y.
impl From<VoxelCoords> for VoxelCoords2D {
    fn from(voxel_coords: VoxelCoords) -> (r: VoxelCoords2D) {
        Coords2D { x: voxel_coords.x, z: voxel_coords.z }
    }
}

impl FromSpecImpl<VoxelCoords> for VoxelCoords2D {
    open spec fn obeys_from_spec() -> bool {
        true
    }

    open spec fn from_spec(voxel_coords: VoxelCoords) -> VoxelCoords2D {
        Coords2D { x: voxel_coords.x, z: voxel_coords.z }
    }
}

} // verus!
