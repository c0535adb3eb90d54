use vstd::prelude::*;
use crate::common::constants::MAX_FIELD_SIZE;
use crate::common::coords::{Coords, VoxelCoords};
use crate::common::indexing::{
    delinearize,
    index_x,
    index_y,
    index_z,
    lemma_volume_bound,
    linearize,
    volume,
};
use crate::common::voxels::Voxel;
use crate::procedural_entity::bounds::{active_hi, active_lo};
use crate::procedural_entity::{voxel_at, ProceduralEntity};

verus! {

/// The greatest of three integers.
pub open spec fn max3(a: int, b: int, c: int) -> int {
    if a >= b && a >= c {
        a
    } else if b >= c {
        b
    } else {
        c
    }
}

/// Edge length of the smallest cube that holds the box from `lo` to `hi` with
/// one more layer of voxels on every side.
pub open spec fn padded_size(lo: Coords<int>, hi: Coords<int>) -> int {
    max3(hi.x - lo.x, hi.y - lo.y, hi.z - lo.z) + 3
}

/// The field of edge length `new_size` whose voxel `(x, y, z)` is the voxel
/// `(lo.x + x - 1, lo.y + y - 1, lo.z + z - 1)` of `field`: the voxel `lo`
/// moves to `(1, 1, 1)`, and what comes from outside `field` is empty.
pub open spec fn rebuilt_field(field: Seq<Voxel>, size: int, lo: Coords<int>, new_size: int) -> Seq<
    Voxel,
> {
    Seq::new(
        volume(new_size) as nat,
        |i: int|
            voxel_at(
                field,
                size,
                lo.x + index_x(new_size, i) - 1,
                lo.y + index_y(new_size, i) - 1,
                lo.z + index_z(new_size, i) - 1,
            ),
    )
}

/// The field of edge length `new_size` that holds every voxel of `field` at
/// its own coordinates, as far as they fit, and is empty elsewhere.
pub open spec fn regrown_field(field: Seq<Voxel>, size: int, new_size: int) -> Seq<Voxel> {
    Seq::new(
        volume(new_size) as nat,
        |i: int|
            voxel_at(field, size, index_x(new_size, i), index_y(new_size, i), index_z(new_size, i)),
    )
}

/// Edge length of the field after it was cropped to its active region.
pub open spec fn cropped_size(field: Seq<Voxel>, size: int) -> int {
    let wanted = padded_size(active_lo(field, size), active_hi(field, size));
    if wanted < size {
        wanted
    } else {
        size
    }
}

/// The field after it was cropped to its active region: unchanged unless the
/// padded box around the active voxels is smaller than the field.
pub open spec fn cropped_field(field: Seq<Voxel>, size: int) -> Seq<Voxel> {
    let wanted = padded_size(active_lo(field, size), active_hi(field, size));
    if wanted < size {
        rebuilt_field(field, size, active_lo(field, size), wanted)
    } else {
        field
    }
}

/// Edge length that a field grows to so that the box from `lo` to `hi` fits
/// with its padding; never more than `MAX_FIELD_SIZE`, never less than `size`.
pub open spec fn grown_size(size: int, lo: Coords<int>, hi: Coords<int>) -> int {
    let wanted = if padded_size(lo, hi) < MAX_FIELD_SIZE {
        padded_size(lo, hi)
    } else {
        MAX_FIELD_SIZE as int
    };
    if wanted > size {
        wanted
    } else {
        size
    }
}

/// The corner made of the smaller coordinates of `a` and `b`.
pub open spec fn corner_min(a: Coords<int>, b: Coords<int>) -> Coords<int> {
    Coords {
        x: if a.x <= b.x { a.x } else { b.x },
        y: if a.y <= b.y { a.y } else { b.y },
        z: if a.z <= b.z { a.z } else { b.z },
    }
}

/// The corner made of the greater coordinates of `a` and `b`.
pub open spec fn corner_max(a: Coords<int>, b: Coords<int>) -> Coords<int> {
    Coords {
        x: if a.x >= b.x { a.x } else { b.x },
        y: if a.y >= b.y { a.y } else { b.y },
        z: if a.z >= b.z { a.z } else { b.z },
    }
}

fn max3_usize(a: usize, b: usize, c: usize) -> (m: usize)
    ensures
        m == max3(a as int, b as int, c as int),
{
    if a >= b && a >= c {
        a
    } else if b >= c {
        b
    } else {
        c
    }
}

impl ProceduralEntity {
    /// Replaces the field by one of edge length `new_size` in which the voxel
    /// `min` of the old field sits at `(1, 1, 1)`.
    pub fn rebuild_field(&mut self, min: VoxelCoords, new_size: usize)
        requires
            old(self).wf(),
            1 <= new_size <= MAX_FIELD_SIZE,
        ensures
            final(self).wf(),
            final(self).field_size == new_size,
            final(self).voxel_field@ == rebuilt_field(
                old(self).voxel_field@,
                old(self).field_size as int,
                min.ints(),
                new_size as int,
            ),
            final(self).vertices == old(self).vertices,
            final(self).modification_count == old(self).modification_count,
            final(self).modification_threshold == old(self).modification_threshold,
    {
        proof {
            lemma_volume_bound(new_size as int);
        }
        let ghost field = self.voxel_field@;
        let ghost size = self.field_size as int;
        let count: usize = new_size * new_size * new_size;
        let mut new_voxels: Vec<Voxel> = Vec::new();
        let mut i: usize = 0;
        while i < count
            invariant
                self.wf(),
                field == self.voxel_field@,
                size == self.field_size as int,
                1 <= new_size <= MAX_FIELD_SIZE,
                count == volume(new_size as int),
                i <= count,
                new_voxels.len() == i,
                forall|j: int|
                    0 <= j < i ==> #[trigger] new_voxels[j] == rebuilt_field(
                        field,
                        size,
                        min.ints(),
                        new_size as int,
                    )[j],
            decreases count - i,
        {
            let pos = delinearize(new_size, i);
            let x: usize = min.x as usize + pos.x as usize;
            let y: usize = min.y as usize + pos.y as usize;
            let z: usize = min.z as usize + pos.z as usize;
            let mut voxel = Voxel::empty();
            if 1 <= x && x <= 256 && 1 <= y && y <= 256 && 1 <= z && z <= 256 {
                let source = VoxelCoords::new((x - 1) as u8, (y - 1) as u8, (z - 1) as u8);
                match linearize(self.field_size, source) {
                    Some(index) => {
                        voxel = self.voxel_field[index];
                    },
                    None => {},
                }
            }
            new_voxels.push(voxel);
            i += 1;
        }
        assert(new_voxels@ =~= rebuilt_field(field, size, min.ints(), new_size as int));
        self.voxel_field = new_voxels;
        self.field_size = new_size;
    }

    /// Crops the field to its active region: where the box around the active
    /// voxels, padded by one voxel on every side, is smaller than the field,
    /// the field is replaced by one of that size which holds the box; else
    /// nothing changes.
    pub fn minimize_field_size(&mut self)
        requires
            old(self).wf(),
        ensures
            final(self).wf(),
            final(self).field_size == cropped_size(
                old(self).voxel_field@,
                old(self).field_size as int,
            ),
            final(self).voxel_field@ == cropped_field(
                old(self).voxel_field@,
                old(self).field_size as int,
            ),
            3 <= final(self).field_size <= old(self).field_size || *final(self) == *old(self),
            final(self).vertices == old(self).vertices,
            final(self).modification_count == old(self).modification_count,
            final(self).modification_threshold == old(self).modification_threshold,
    {
        let (min, max) = self.active_bounds();
        let new_size: usize = max3_usize(
            (max.x - min.x) as usize,
            (max.y - min.y) as usize,
            (max.z - min.z) as usize,
        ) + 3;
        if new_size < self.field_size {
            self.rebuild_field(min, new_size);
        }
    }

    /// Grows the field so that the box from `lo` to `hi` fits with one voxel
    /// of padding on every side; every voxel keeps its coordinates and the
    /// new ones are empty. Nothing changes where the field is large enough.
    fn grow_to_fit(&mut self, lo: VoxelCoords, hi: VoxelCoords)
        requires
            old(self).wf(),
            lo.x <= hi.x,
            lo.y <= hi.y,
            lo.z <= hi.z,
        ensures
            final(self).wf(),
            final(self).field_size == grown_size(
                old(self).field_size as int,
                lo.ints(),
                hi.ints(),
            ),
            final(self).voxel_field@ == regrown_field(
                old(self).voxel_field@,
                old(self).field_size as int,
                final(self).field_size as int,
            ),
            final(self).vertices == old(self).vertices,
            final(self).modification_count == old(self).modification_count,
            final(self).modification_threshold == old(self).modification_threshold,
    {
        let padded: usize = max3_usize(
            (hi.x - lo.x) as usize,
            (hi.y - lo.y) as usize,
            (hi.z - lo.z) as usize,
        ) + 3;
        let wanted: usize = if padded < MAX_FIELD_SIZE {
            padded
        } else {
            MAX_FIELD_SIZE
        };
        let ghost field = self.voxel_field@;
        let ghost size = self.field_size as int;
        if wanted > self.field_size {
            self.rebuild_field(VoxelCoords::new(1, 1, 1), wanted);
            assert(self.voxel_field@ =~= regrown_field(field, size, wanted as int));
        } else {
            proof {
                lemma_regrow_same_size(field, size);
            }
        }
    }

    /// Grows the field where its active voxels come too close to its faces:
    /// where the box around the active voxels, padded by one voxel on every
    /// side, is larger than the field, the field is replaced by one of that
    /// size (at most `MAX_FIELD_SIZE`) in which every voxel keeps its
    /// coordinates and the new voxels are empty; else nothing changes.
    pub fn increase_field_size(&mut self)
        requires
            old(self).wf(),
        ensures
            final(self).wf(),
            final(self).field_size == grown_size(
                old(self).field_size as int,
                active_lo(old(self).voxel_field@, old(self).field_size as int),
                active_hi(old(self).voxel_field@, old(self).field_size as int),
            ),
            final(self).voxel_field@ == regrown_field(
                old(self).voxel_field@,
                old(self).field_size as int,
                final(self).field_size as int,
            ),
            final(self).field_size >= old(self).field_size,
            final(self).field_size >= 3 || final(self).field_size == old(self).field_size,
            final(self).vertices == old(self).vertices,
            final(self).modification_count == old(self).modification_count,
            final(self).modification_threshold == old(self).modification_threshold,
    {
        let (min, max) = self.active_bounds();
        self.grow_to_fit(min, max);
    }

    /// Grows the field as `increase_field_size` does, for the box that holds
    /// the active voxels and also the voxels from `touch_lo` to `touch_hi`.
    pub fn grow_to_include(&mut self, touch_lo: VoxelCoords, touch_hi: VoxelCoords)
        requires
            old(self).wf(),
            touch_lo.x <= touch_hi.x,
            touch_lo.y <= touch_hi.y,
            touch_lo.z <= touch_hi.z,
        ensures
            final(self).wf(),
            final(self).field_size == grown_size(
                old(self).field_size as int,
                corner_min(
                    active_lo(old(self).voxel_field@, old(self).field_size as int),
                    touch_lo.ints(),
                ),
                corner_max(
                    active_hi(old(self).voxel_field@, old(self).field_size as int),
                    touch_hi.ints(),
                ),
            ),
            final(self).voxel_field@ == regrown_field(
                old(self).voxel_field@,
                old(self).field_size as int,
                final(self).field_size as int,
            ),
            final(self).field_size >= old(self).field_size,
            final(self).field_size >= 3 || final(self).field_size == old(self).field_size,
            final(self).vertices == old(self).vertices,
            final(self).modification_count == old(self).modification_count,
            final(self).modification_threshold == old(self).modification_threshold,
    {
        let (min, max) = self.active_bounds();
        let lo = VoxelCoords::new(
            if min.x <= touch_lo.x { min.x } else { touch_lo.x },
            if min.y <= touch_lo.y { min.y } else { touch_lo.y },
            if min.z <= touch_lo.z { min.z } else { touch_lo.z },
        );
        let hi = VoxelCoords::new(
            if max.x >= touch_hi.x { max.x } else { touch_hi.x },
            if max.y >= touch_hi.y { max.y } else { touch_hi.y },
            if max.z >= touch_hi.z { max.z } else { touch_hi.z },
        );
        self.grow_to_fit(lo, hi);
    }
}

/// Regrowing a field to its own size changes nothing.
pub proof fn lemma_regrow_same_size(field: Seq<Voxel>, size: int)
    requires
        0 < size,
        field.len() == volume(size),
    ensures
        regrown_field(field, size, size) == field,
{
    assert forall|i: int| 0 <= i < field.len() implies regrown_field(field, size, size)[i]
        == field[i] by {
        crate::common::indexing::lemma_linear_index_of_coords(size, i);
    }
    assert(regrown_field(field, size, size) =~= field);
}

/// Growing keeps every voxel where it is, and what it adds is empty.
pub proof fn lemma_regrow_keeps_voxels(
    field: Seq<Voxel>,
    size: int,
    new_size: int,
    x: int,
    y: int,
    z: int,
)
    requires
        0 < size <= new_size,
        field.len() == volume(size),
    ensures
        voxel_at(regrown_field(field, size, new_size), new_size, x, y, z) == voxel_at(
            field,
            size,
            x,
            y,
            z,
        ),
{
    if crate::common::indexing::in_bounds(new_size, x, y, z) {
        crate::common::indexing::lemma_linear_index_in_range(new_size, x, y, z);
        crate::common::indexing::lemma_coords_of_linear_index(new_size, x, y, z);
    }
}

} // verus!
