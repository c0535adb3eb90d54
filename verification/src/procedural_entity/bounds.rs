use vstd::prelude::*;
use crate::common::coords::{Coords, VoxelCoords};
use crate::common::indexing::{index_x, index_y, index_z};
use crate::common::voxels::Voxel;
use crate::procedural_entity::ProceduralEntity;

verus! {

/// Whether any voxel of the field is active.
pub open spec fn has_active(field: Seq<Voxel>) -> bool {
    exists|i: int| 0 <= i < field.len() && (#[trigger] field[i]).is_active()
}

/// The coordinate along `axis` (0 for x, 1 for y, anything else for z) of the
/// voxel stored at `index`.
pub open spec fn axis_coord(size: int, index: int, axis: int) -> int {
    if axis == 0 {
        index_x(size, index)
    } else if axis == 1 {
        index_y(size, index)
    } else {
        index_z(size, index)
    }
}

/// `m` is the least coordinate along `axis` of an active voxel.
pub open spec fn is_axis_min(field: Seq<Voxel>, size: int, axis: int, m: int) -> bool {
    &&& forall|i: int|
        0 <= i < field.len() && (#[trigger] field[i]).is_active() ==> m <= axis_coord(
            size,
            i,
            axis,
        )
    &&& exists|i: int|
        0 <= i < field.len() && (#[trigger] field[i]).is_active() && axis_coord(size, i, axis)
            == m
}

/// `m` is the greatest coordinate along `axis` of an active voxel.
pub open spec fn is_axis_max(field: Seq<Voxel>, size: int, axis: int, m: int) -> bool {
    &&& forall|i: int|
        0 <= i < field.len() && (#[trigger] field[i]).is_active() ==> axis_coord(size, i, axis)
            <= m
    &&& exists|i: int|
        0 <= i < field.len() && (#[trigger] field[i]).is_active() && axis_coord(size, i, axis)
            == m
}

/// Lower end, along `axis`, of the box around the active voxels. A field
/// without active voxels counts as active throughout.
pub open spec fn axis_min(field: Seq<Voxel>, size: int, axis: int) -> int {
    if has_active(field) {
        choose|m: int| is_axis_min(field, size, axis, m)
    } else {
        0
    }
}

/// Upper end, along `axis`, of the box around the active voxels. A field
/// without active voxels counts as active throughout.
pub open spec fn axis_max(field: Seq<Voxel>, size: int, axis: int) -> int {
    if has_active(field) {
        choose|m: int| is_axis_max(field, size, axis, m)
    } else {
        size - 1
    }
}

/// Lowest corner of the box around the active voxels.
pub open spec fn active_lo(field: Seq<Voxel>, size: int) -> Coords<int> {
    Coords {
        x: axis_min(field, size, 0),
        y: axis_min(field, size, 1),
        z: axis_min(field, size, 2),
    }
}

/// Highest corner of the box around the active voxels.
pub open spec fn active_hi(field: Seq<Voxel>, size: int) -> Coords<int> {
    Coords {
        x: axis_max(field, size, 0),
        y: axis_max(field, size, 1),
        z: axis_max(field, size, 2),
    }
}

/// Only one number is the least coordinate of the active voxels.
pub proof fn lemma_axis_min_unique(field: Seq<Voxel>, size: int, axis: int, m: int)
    requires
        is_axis_min(field, size, axis, m),
    ensures
        has_active(field),
        axis_min(field, size, axis) == m,
{
    let c = choose|c: int| is_axis_min(field, size, axis, c);
    assert(is_axis_min(field, size, axis, c));
}

/// Only one number is the greatest coordinate of the active voxels.
pub proof fn lemma_axis_max_unique(field: Seq<Voxel>, size: int, axis: int, m: int)
    requires
        is_axis_max(field, size, axis, m),
    ensures
        has_active(field),
        axis_max(field, size, axis) == m,
{
    let c = choose|c: int| is_axis_max(field, size, axis, c);
    assert(is_axis_max(field, size, axis, c));
}

impl ProceduralEntity {
    /// The box around the active voxels: its lowest and its highest corner.
    /// Without any active voxel the box is the whole field.
    pub fn active_bounds(&self) -> (bounds: (VoxelCoords, VoxelCoords))
        requires
            self.wf(),
        ensures
            bounds.0.x == active_lo(self.voxel_field@, self.field_size as int).x,
            bounds.0.y == active_lo(self.voxel_field@, self.field_size as int).y,
            bounds.0.z == active_lo(self.voxel_field@, self.field_size as int).z,
            bounds.1.x == active_hi(self.voxel_field@, self.field_size as int).x,
            bounds.1.y == active_hi(self.voxel_field@, self.field_size as int).y,
            bounds.1.z == active_hi(self.voxel_field@, self.field_size as int).z,
            bounds.0.x <= bounds.1.x < self.field_size,
            bounds.0.y <= bounds.1.y < self.field_size,
            bounds.0.z <= bounds.1.z < self.field_size,
    {
        let ghost field = self.voxel_field@;
        let ghost size = self.field_size as int;
        let mut lo = VoxelCoords::new(0, 0, 0);
        let mut hi = VoxelCoords::new(0, 0, 0);
        let mut found = false;
        let ghost mut wit_lo: Coords<int> = Coords { x: 0, y: 0, z: 0 };
        let ghost mut wit_hi: Coords<int> = Coords { x: 0, y: 0, z: 0 };
        let mut i: usize = 0;
        while i < self.voxel_field.len()
            invariant
                self.wf(),
                field == self.voxel_field@,
                size == self.field_size as int,
                i <= field.len(),
                !found ==> forall|j: int| 0 <= j < i ==> !(#[trigger] field[j]).is_active(),
                found ==> forall|j: int|
                    0 <= j < i && (#[trigger] field[j]).is_active() ==> {
                        &&& lo.x <= index_x(size, j) <= hi.x
                        &&& lo.y <= index_y(size, j) <= hi.y
                        &&& lo.z <= index_z(size, j) <= hi.z
                    },
                found ==> {
                    &&& 0 <= wit_lo.x < i && field[wit_lo.x].is_active() && index_x(size, wit_lo.x)
                        == lo.x
                    &&& 0 <= wit_lo.y < i && field[wit_lo.y].is_active() && index_y(size, wit_lo.y)
                        == lo.y
                    &&& 0 <= wit_lo.z < i && field[wit_lo.z].is_active() && index_z(size, wit_lo.z)
                        == lo.z
                    &&& 0 <= wit_hi.x < i && field[wit_hi.x].is_active() && index_x(size, wit_hi.x)
                        == hi.x
                    &&& 0 <= wit_hi.y < i && field[wit_hi.y].is_active() && index_y(size, wit_hi.y)
                        == hi.y
                    &&& 0 <= wit_hi.z < i && field[wit_hi.z].is_active() && index_z(size, wit_hi.z)
                        == hi.z
                },
                found ==> lo.x <= hi.x < size && lo.y <= hi.y < size && lo.z <= hi.z < size,
            decreases field.len() - i,
        {
            if self.voxel_field[i].is_active() {
                let pos = self.index_to_coords(i);
                if !found {
                    lo = pos;
                    hi = pos;
                    found = true;
                    proof {
                        wit_lo = Coords { x: i as int, y: i as int, z: i as int };
                        wit_hi = wit_lo;
                    }
                } else {
                    if pos.x < lo.x {
                        lo.x = pos.x;
                        proof {
                            wit_lo.x = i as int;
                        }
                    }
                    if pos.y < lo.y {
                        lo.y = pos.y;
                        proof {
                            wit_lo.y = i as int;
                        }
                    }
                    if pos.z < lo.z {
                        lo.z = pos.z;
                        proof {
                            wit_lo.z = i as int;
                        }
                    }
                    if pos.x > hi.x {
                        hi.x = pos.x;
                        proof {
                            wit_hi.x = i as int;
                        }
                    }
                    if pos.y > hi.y {
                        hi.y = pos.y;
                        proof {
                            wit_hi.y = i as int;
                        }
                    }
                    if pos.z > hi.z {
                        hi.z = pos.z;
                        proof {
                            wit_hi.z = i as int;
                        }
                    }
                }
            }
            i += 1;
        }
        if !found {
            let last: u8 = (self.field_size - 1) as u8;
            lo = VoxelCoords::new(0, 0, 0);
            hi = VoxelCoords::new(last, last, last);
            assert(!has_active(field));
        } else {
            proof {
                assert(is_axis_min(field, size, 0, lo.x as int)) by {
                    assert(field[wit_lo.x].is_active() && axis_coord(size, wit_lo.x, 0) == lo.x);
                }
                assert(is_axis_min(field, size, 1, lo.y as int)) by {
                    assert(field[wit_lo.y].is_active() && axis_coord(size, wit_lo.y, 1) == lo.y);
                }
                assert(is_axis_min(field, size, 2, lo.z as int)) by {
                    assert(field[wit_lo.z].is_active() && axis_coord(size, wit_lo.z, 2) == lo.z);
                }
                assert(is_axis_max(field, size, 0, hi.x as int)) by {
                    assert(field[wit_hi.x].is_active() && axis_coord(size, wit_hi.x, 0) == hi.x);
                }
                assert(is_axis_max(field, size, 1, hi.y as int)) by {
                    assert(field[wit_hi.y].is_active() && axis_coord(size, wit_hi.y, 1) == hi.y);
                }
                assert(is_axis_max(field, size, 2, hi.z as int)) by {
                    assert(field[wit_hi.z].is_active() && axis_coord(size, wit_hi.z, 2) == hi.z);
                }
                lemma_axis_min_unique(field, size, 0, lo.x as int);
                lemma_axis_min_unique(field, size, 1, lo.y as int);
                lemma_axis_min_unique(field, size, 2, lo.z as int);
                lemma_axis_max_unique(field, size, 0, hi.x as int);
                lemma_axis_max_unique(field, size, 1, hi.y as int);
                lemma_axis_max_unique(field, size, 2, hi.z as int);
            }
        }
        (lo, hi)
    }
}

} // verus!
