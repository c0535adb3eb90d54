use vstd::prelude::*;
use crate::common::constants::MAX_FIELD_SIZE;
use crate::common::coords::VoxelCoords;
use crate::common::indexing::{
    delinearize,
    in_bounds,
    index_x,
    index_y,
    index_z,
    lemma_volume_bound,
    linear_index,
    volume,
};
use crate::common::vertex::Vertex;
use crate::common::voxels::Voxel;

pub mod bounds;
pub mod connectivity;
pub mod regions;
pub mod resize;
pub mod crop_laws;
pub mod deform;
pub mod generate;

verus! {

/// A solid object: a cubic field of voxels, the triangles of its surface, and
/// the bookkeeping that decides when the field is worth shrinking.
pub struct ProceduralEntity {
    /// Number of voxels along each axis of the field.
    pub field_size: usize,
    /// The voxels, x-major: the voxel `(x, y, z)` is stored at
    /// `z + y * field_size + x * field_size * field_size`.
    pub voxel_field: Vec<Voxel>,
    /// The surface of the field as it was when the vertices were last
    /// generated; three consecutive vertices make one triangle.
    pub vertices: Vec<Vertex>,
    /// Number of voxel edits since the field was last shrunk.
    pub modification_count: u32,
    /// Number of voxel edits after which the field is shrunk.
    pub modification_threshold: u32,
}

/// The voxel at `(x, y, z)` of a field of edge length `size`; outside the
/// field every voxel reads as empty.
pub open spec fn voxel_at(field: Seq<Voxel>, size: int, x: int, y: int, z: int) -> Voxel {
    if in_bounds(size, x, y, z) {
        field[linear_index(size, x, y, z)]
    } else {
        Voxel::empty()
    }
}

/// A field of edge length `size` in which every voxel is empty.
pub open spec fn empty_field(size: int) -> Seq<Voxel> {
    Seq::new(volume(size) as nat, |i: int| Voxel::empty())
}

/// Allocates a field of edge length `size` in which every voxel is empty.
pub fn new_empty_field(size: usize) -> (field: Vec<Voxel>)
    requires
        size <= MAX_FIELD_SIZE,
    ensures
        field@ == empty_field(size as int),
        field.len() == volume(size as int),
{
    proof {
        lemma_volume_bound(size as int);
    }
    let count: usize = size * size * size;
    let mut field: Vec<Voxel> = Vec::new();
    let mut i: usize = 0;
    while i < count
        invariant
            i <= count,
            count == volume(size as int),
            field.len() == i,
            forall|j: int| 0 <= j < i ==> field[j] == Voxel::empty(),
        decreases count - i,
    {
        field.push(Voxel::empty());
        i += 1;
    }
    assert(field@ =~= empty_field(size as int));
    field
}

impl ProceduralEntity {
    /// The field is cubic, holds at least one voxel and at most
    /// `MAX_FIELD_SIZE` along each axis.
    pub open spec fn wf(&self) -> bool {
        &&& 1 <= self.field_size <= MAX_FIELD_SIZE
        &&& self.voxel_field.len() == volume(self.field_size as int)
    }

    /// An entity of the given edge length whose field is entirely empty.
    pub fn new(field_size: usize) -> (entity: Self)
        requires
            1 <= field_size <= MAX_FIELD_SIZE,
        ensures
            entity.wf(),
            entity.field_size == field_size,
            entity.voxel_field@ == empty_field(field_size as int),
            entity.vertices@ == Seq::<Vertex>::empty(),
            entity.modification_count == 0,
            entity.modification_threshold == 20,
    {
        ProceduralEntity {
            field_size,
            voxel_field: new_empty_field(field_size),
            vertices: Vec::new(),
            modification_count: 0,
            modification_threshold: 20,
        }
    }

    /// The coordinates of the voxel stored at `index`.
    pub fn index_to_coords(&self, index: usize) -> (pos: VoxelCoords)
        requires
            self.wf(),
            index < self.voxel_field.len(),
        ensures
            pos.x as int == index_x(self.field_size as int, index as int),
            pos.y as int == index_y(self.field_size as int, index as int),
            pos.z as int == index_z(self.field_size as int, index as int),
            in_bounds(self.field_size as int, pos.x as int, pos.y as int, pos.z as int),
            linear_index(self.field_size as int, pos.x as int, pos.y as int, pos.z as int)
                == index,
    {
        delinearize(self.field_size, index)
    }
}

} // verus!
