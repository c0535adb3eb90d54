use vstd::prelude::*;
use crate::common::coords::{ChunkCoords, Coords, VoxelCoords};

verus! {

/// Coordinates with whole components, on which one can step to the six
/// neighbours that share a face: north and south along z, east and west
/// along x, up and down along y.
pub trait HasNeighbours: Sized {
    /// Whether the position at the offset `(dx, dy, dz)` from this one can
    /// be written in this coordinate type.
    spec fn has_neighbour(&self, dx: int, dy: int, dz: int) -> bool;

    /// The position at the offset `(dx, dy, dz)` from this one.
    spec fn neighbour(&self, dx: int, dy: int, dz: int) -> Self;

    /// One step along z.
    fn get_north(&self) -> (r: Self)
        requires
            self.has_neighbour(0, 0, 1),
        ensures
            r == self.neighbour(0, 0, 1),
    ;

    /// One step back along z.
    fn get_south(&self) -> (r: Self)
        requires
            self.has_neighbour(0, 0, -1),
        ensures
            r == self.neighbour(0, 0, -1),
    ;

    /// One step along x.
    fn get_east(&self) -> (r: Self)
        requires
            self.has_neighbour(1, 0, 0),
        ensures
            r == self.neighbour(1, 0, 0),
    ;

    /// One step back along x.
    fn get_west(&self) -> (r: Self)
        requires
            self.has_neighbour(-1, 0, 0),
        ensures
            r == self.neighbour(-1, 0, 0),
    ;

    /// One step along y.
    fn get_up(&self) -> (r: Self)
        requires
            self.has_neighbour(0, 1, 0),
        ensures
            r == self.neighbour(0, 1, 0),
    ;

    /// One step back along y.
    fn get_down(&self) -> (r: Self)
        requires
            self.has_neighbour(0, -1, 0),
        ensures
            r == self.neighbour(0, -1, 0),
    ;
}

impl HasNeighbours for ChunkCoords {
    open spec fn has_neighbour(&self, dx: int, dy: int, dz: int) -> bool {
        &&& i64::MIN <= self.x + dx <= i64::MAX
        &&& i64::MIN <= self.y + dy <= i64::MAX
        &&& i64::MIN <= self.z + dz <= i64::MAX
    }

    open spec fn neighbour(&self, dx: int, dy: int, dz: int) -> Self {
        Coords { x: (self.x + dx) as i64, y: (self.y + dy) as i64, z: (self.z + dz) as i64 }
    }

    fn get_north(&self) -> (r: Self) {
        ChunkCoords::new(self.x, self.y, self.z + 1)
    }

    fn get_south(&self) -> (r: Self) {
        ChunkCoords::new(self.x, self.y, self.z - 1)
    }

    fn get_east(&self) -> (r: Self) {
        ChunkCoords::new(self.x + 1, self.y, self.z)
    }

    fn get_west(&self) -> (r: Self) {
        ChunkCoords::new(self.x - 1, self.y, self.z)
    }

    fn get_up(&self) -> (r: Self) {
        ChunkCoords::new(self.x, self.y + 1, self.z)
    }

    fn get_down(&self) -> (r: Self) {
        ChunkCoords::new(self.x, self.y - 1, self.z)
    }
}

impl HasNeighbours for VoxelCoords {
    open spec fn has_neighbour(&self, dx: int, dy: int, dz: int) -> bool {
        &&& 0 <= self.x + dx <= u8::MAX
        &&& 0 <= self.y + dy <= u8::MAX
        &&& 0 <= self.z + dz <= u8::MAX
    }

    open spec fn neighbour(&self, dx: int, dy: int, dz: int) -> Self {
        Coords { x: (self.x + dx) as u8, y: (self.y + dy) as u8, z: (self.z + dz) as u8 }
    }

    fn get_north(&self) -> (r: Self) {
        VoxelCoords::new(self.x, self.y, self.z + 1)
    }

    fn get_south(&self) -> (r: Self) {
        VoxelCoords::new(self.x, self.y, self.z - 1)
    }

    fn get_east(&self) -> (r: Self) {
        VoxelCoords::new(self.x + 1, self.y, self.z)
    }

    fn get_west(&self) -> (r: Self) {
        VoxelCoords::new(self.x - 1, self.y, self.z)
    }

    fn get_up(&self) -> (r: Self) {
        VoxelCoords::new(self.x, self.y + 1, self.z)
    }

    fn get_down(&self) -> (r: Self) {
        VoxelCoords::new(self.x, self.y - 1, self.z)
    }
}

} // verus!
