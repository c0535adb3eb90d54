use vstd::prelude::*;
use vstd::std_specs::convert::FromSpecImpl;
use crate::common::constants::EMPTY_VALUE;
use crate::common::voxel_material::VoxelMaterial;

verus! {

/// One cell of a density field. `value` is a signed density in thousandths:
/// negative is empty, zero and above is solid. Its magnitude weighs the
/// interpolation along cell edges.
#[derive(Clone, Copy, Debug, PartialEq, Eq, Structural)]
pub struct Voxel {
    pub value: i32,
    pub material: VoxelMaterial,
}

impl Voxel {
    /// A cell counts as solid ("active") when its density is not negative.
    pub open spec fn spec_is_active(&self) -> bool {
        self.value >= 0
    }

    #[verifier::when_used_as_spec(spec_is_active)]
    pub fn is_active(&self) -> (r: bool)
        ensures
            r == self.spec_is_active(),
    {
        self.value >= 0
    }

    /// The cell of a freshly allocated field: fully empty air.
    pub open spec fn spec_empty() -> Voxel {
        Voxel { value: EMPTY_VALUE, material: VoxelMaterial::AIR }
    }

    #[verifier::when_used_as_spec(spec_empty)]
    pub fn empty() -> (r: Voxel)
        ensures
            r == Voxel::spec_empty(),
    {
        Voxel { value: EMPTY_VALUE, material: VoxelMaterial::AIR }
    }
}

impl Default for Voxel {
    /// Density zero, made of air.
    fn default() -> (r: Voxel)
        ensures
            r == (Voxel { value: 0, material: VoxelMaterial::AIR }),
    {
        Voxel { value: 0, material: VoxelMaterial::AIR }
    }
}

/// A voxel of air with the given density.
impl From<i32> for Voxel {
    fn from(value: i32) -> (r: Voxel) {
        Voxel { value, material: VoxelMaterial::AIR }
    }
}

impl FromSpecImpl<i32> for Voxel {
    open spec fn obeys_from_spec() -> bool {
        true
    }

    open spec fn from_spec(value: i32) -> Voxel {
        Voxel { value, material: VoxelMaterial::AIR }
    }
}

} // verus!
