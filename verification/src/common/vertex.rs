use vstd::prelude::*;
use crate::common::coords::{Coords, WorldCoords};
use crate::common::voxel_material::{Rgba, VoxelMaterial};

verus! {

/// One corner of a surface triangle.
#[derive(Clone, Copy, Debug, PartialEq, Eq, Structural)]
pub struct Vertex {
    /// Position in the local space of the field, in thousandths of a cell.
    pub pos: WorldCoords,
    /// Unit normal of the triangle, in thousandths; zero for a triangle
    /// without area.
    pub normal: Coords<i64>,
    pub color: Rgba,
    pub voxel_material: VoxelMaterial,
}

} // verus!
