use vstd::prelude::*;

verus! {

/// What a voxel is made of.
#[allow(non_camel_case_types)]
#[derive(Clone, Copy, Debug, PartialEq, Eq, Hash, Structural)]
pub enum VoxelMaterial {
    AIR,
    STONE,
}

/// A colour with its four channels in thousandths.
#[derive(Clone, Copy, Debug, PartialEq, Eq, Structural)]
pub struct Rgba {
    pub red: u16,
    pub green: u16,
    pub blue: u16,
    pub alpha: u16,
}

impl VoxelMaterial {
    /// The flat colour that surfaces of this material are drawn in.
    pub open spec fn spec_color(self) -> Rgba {
        match self {
            VoxelMaterial::STONE => Rgba { red: 400, green: 400, blue: 400, alpha: 1000 },
            VoxelMaterial::AIR => Rgba { red: 600, green: 500, blue: 200, alpha: 1000 },
        }
    }

    /// Stone is grey; every other material is ochre.
    #[verifier::when_used_as_spec(spec_color)]
    pub fn color(self) -> (c: Rgba)
        ensures
            c == self.spec_color(),
    {
        match self {
            VoxelMaterial::STONE => Rgba { red: 400, green: 400, blue: 400, alpha: 1000 },
            VoxelMaterial::AIR => Rgba { red: 600, green: 500, blue: 200, alpha: 1000 },
        }
    }
}

} // verus!
