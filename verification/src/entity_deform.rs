use vstd::prelude::*;
use crate::common::constants::FULL_VALUE;
use crate::common::coords::WorldCoords;
use crate::common::voxels::Voxel;
use crate::marching_cubes::surface;
use crate::procedural_entity::connectivity::count_true;
use crate::procedural_entity::deform::{
    filled_size,
    hit_voxel,
    saturating_count,
    shifted_field,
    touched_cells,
};
use crate::procedural_entity::regions::regions;
use crate::procedural_entity::resize::{cropped_field, cropped_size, regrown_field};
use crate::procedural_entity::ProceduralEntity;

verus! {

/// Density, in thousandths, that one hit carves out of every voxel it
/// touches.
pub const CARVE_SPEED: i32 = 200;

/// Number of shells around the hit voxel that one hit carves.
pub const CARVE_RADIUS: usize = 2;

/// Density, in thousandths, that one hit fills into every voxel it touches.
pub const FILL_SPEED: i32 = 300;

/// Number of shells around the hit voxel that one hit fills.
pub const FILL_RADIUS: usize = 2;

/// Whether `after` is what `finish_deformation` makes of an entity with the
/// given field, size, modification count and threshold: cropped and counted
/// from zero where the count had reached the threshold, and with the
/// vertices of its surface.
pub open spec fn is_finished(
    field: Seq<Voxel>,
    size: int,
    count: int,
    threshold: int,
    after: ProceduralEntity,
) -> bool {
    &&& after.wf()
    &&& after.modification_threshold == threshold
    &&& count >= threshold ==> {
        &&& after.field_size == cropped_size(field, size)
        &&& after.voxel_field@ == cropped_field(field, size)
        &&& after.modification_count == 0
    }
    &&& count < threshold ==> {
        &&& after.field_size == size
        &&& after.voxel_field@ == field
        &&& after.modification_count == count
    }
    &&& after.vertices@ == surface(after.voxel_field@, after.field_size as int)
}

/// Handles one hit on an entity: fills material in around the hit point
/// where `fill_mode` is set, else carves material out, and returns the
/// entities that take the place of the hit one, each brought up to date.
/// A fill returns one entity; a carve returns one for each region that the
/// carved field falls into, which may be none.
pub fn deform_entity(entity: &mut ProceduralEntity, local_hit_point: WorldCoords, fill_mode: bool)
    -> (new_entities: Vec<ProceduralEntity>)
    requires
        old(entity).wf(),
    ensures
        final(entity).wf(),
        final(entity).vertices == old(entity).vertices,
        final(entity).modification_threshold == old(entity).modification_threshold,
        fill_mode ==> {
            &&& final(entity).field_size == filled_size(
                old(entity).voxel_field@,
                old(entity).field_size as int,
                hit_voxel(local_hit_point).ints(),
                FILL_RADIUS as int,
            )
            &&& final(entity).voxel_field@ == shifted_field(
                regrown_field(
                    old(entity).voxel_field@,
                    old(entity).field_size as int,
                    final(entity).field_size as int,
                ),
                final(entity).field_size as int,
                hit_voxel(local_hit_point).ints(),
                FILL_RADIUS as int,
                FILL_SPEED as int,
                FULL_VALUE as int,
            )
            &&& final(entity).modification_count == old(entity).modification_count
            &&& new_entities.len() == 1
            &&& is_finished(
                final(entity).voxel_field@,
                final(entity).field_size as int,
                final(entity).modification_count as int,
                final(entity).modification_threshold as int,
                new_entities[0],
            )
        },
        !fill_mode ==> {
            &&& final(entity).field_size == old(entity).field_size
            &&& final(entity).voxel_field@ == shifted_field(
                old(entity).voxel_field@,
                old(entity).field_size as int,
                hit_voxel(local_hit_point).ints(),
                CARVE_RADIUS as int,
                -CARVE_SPEED,
                i32::MAX as int,
            )
            &&& final(entity).modification_count == saturating_count(
                old(entity).modification_count as int,
                count_true(
                    touched_cells(
                        old(entity).field_size as int,
                        hit_voxel(local_hit_point).ints(),
                        CARVE_RADIUS as int,
                    ),
                ) as int,
            )
            &&& new_entities.len() == regions(
                final(entity).voxel_field@,
                final(entity).field_size as int,
            ).len()
            &&& forall|k: int|
                0 <= k < new_entities.len() ==> is_finished(
                    regions(final(entity).voxel_field@, final(entity).field_size as int)[k],
                    final(entity).field_size as int,
                    final(entity).modification_count as int,
                    final(entity).modification_threshold as int,
                    #[trigger] new_entities[k],
                )
        },
{
    let mut new_entities = if fill_mode {
        entity.fill(local_hit_point, FILL_SPEED, FILL_RADIUS)
    } else {
        entity.carve(local_hit_point, CARVE_SPEED, CARVE_RADIUS)
    };
    let ghost raw = new_entities@;
    let mut i: usize = 0;
    while i < new_entities.len()
        invariant
            i <= new_entities.len(),
            new_entities.len() == raw.len(),
            forall|k: int| 0 <= k < raw.len() ==> (#[trigger] raw[k]).wf(),
            forall|k: int| i <= k < raw.len() ==> #[trigger] new_entities[k] == raw[k],
            forall|k: int|
                0 <= k < i ==> is_finished(
                    raw[k].voxel_field@,
                    raw[k].field_size as int,
                    raw[k].modification_count as int,
                    raw[k].modification_threshold as int,
                    #[trigger] new_entities[k],
                ),
        decreases new_entities.len() - i,
    {
        new_entities[i].finish_deformation();
        i += 1;
    }
    new_entities
}

} // verus!
