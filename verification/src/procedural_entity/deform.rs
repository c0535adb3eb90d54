use vstd::prelude::*;
use crate::common::constants::{FULL_VALUE, MAX_FIELD_SIZE, SCALE};
use crate::common::coords::{Coords, VoxelCoords, WorldCoords};
use crate::common::coords_iterators::{
    lemma_next_offset_is_adjacent,
    lemma_next_offset_is_later,
    lemma_remaining_decreases,
    lemma_shell_start,
    lemma_visited_before_total,
    lemma_visited_before_transitive,
    remaining_in_shell,
    shell_of,
    visited_before,
};
use crate::common::indexing::{
    in_bounds,
    index_x,
    index_y,
    index_z,
    lemma_coords_of_linear_index,
    lemma_linear_index_of_coords,
    linearize,
    volume,
};
use crate::common::vertex::Vertex;
use crate::common::voxels::Voxel;
use crate::marching_cubes::{find_triangles, surface};
use crate::procedural_entity::bounds::{active_hi, active_lo};
use crate::procedural_entity::connectivity::{
    count_true,
    lemma_count_true_bound,
    lemma_count_true_none,
    lemma_count_true_raise,
};
use crate::procedural_entity::regions::regions;
use crate::procedural_entity::resize::lemma_regrow_same_size;
use crate::procedural_entity::resize::{
    corner_max,
    corner_min,
    cropped_field,
    cropped_size,
    grown_size,
    regrown_field,
};
use crate::procedural_entity::ProceduralEntity;

verus! {

/// The voxel that a hit point lies in: each coordinate, given in
/// thousandths, loses its fraction and is kept within 0 and 255.
pub open spec fn hit_voxel(hit: WorldCoords) -> VoxelCoords {
    Coords {
        x: whole_cells(hit.x.0 as int) as u8,
        y: whole_cells(hit.y.0 as int) as u8,
        z: whole_cells(hit.z.0 as int) as u8,
    }
}

/// The whole cells in `raw` thousandths, kept within 0 and 255.
pub open spec fn whole_cells(raw: int) -> int {
    if raw <= 0 {
        0
    } else if raw / (SCALE as int) > 255 {
        255
    } else {
        raw / (SCALE as int)
    }
}

fn to_cell(raw: i64) -> (cell: u8)
    ensures
        cell == whole_cells(raw as int),
{
    if raw <= 0 {
        0
    } else {
        let whole: i64 = raw / SCALE;
        if whole > 255 {
            255
        } else {
            whole as u8
        }
    }
}

/// Converts a hit point in the local space of a field to the voxel it lies
/// in.
pub fn voxel_of_hit(hit: WorldCoords) -> (voxel: VoxelCoords)
    ensures
        voxel == hit_voxel(hit),
{
    VoxelCoords::new(
        to_cell(hit.x.into_inner()),
        to_cell(hit.y.into_inner()),
        to_cell(hit.z.into_inner()),
    )
}

/// The offset from `center` of the voxel stored at `index`.
pub open spec fn offset_of_index(size: int, center: Coords<int>, index: int) -> Coords<int> {
    Coords {
        x: index_x(size, index) - center.x,
        y: index_y(size, index) - center.y,
        z: index_z(size, index) - center.z,
    }
}

/// Whether a deformation of `radius` shells around `center` touches the
/// voxel stored at `index`: whether the voxel lies in the cubic
/// neighbourhood of the centre.
pub open spec fn is_touched(size: int, center: Coords<int>, radius: int, index: int) -> bool {
    shell_of(offset_of_index(size, center, index)) < radius
}

/// For every voxel of a field, whether a deformation touches it.
pub open spec fn touched_cells(size: int, center: Coords<int>, radius: int) -> Seq<bool> {
    Seq::new(volume(size) as nat, |index: int| is_touched(size, center, radius, index))
}

/// The density `value + delta`, kept at or below `cap` and within `i32`.
pub open spec fn shifted_value(value: int, delta: int, cap: int) -> int {
    if value + delta > cap {
        cap
    } else if value + delta < i32::MIN {
        i32::MIN as int
    } else {
        value + delta
    }
}

/// The field in which every voxel that the deformation touches has its
/// density shifted by `delta` and capped at `cap`; nothing else changes.
pub open spec fn shifted_field(
    field: Seq<Voxel>,
    size: int,
    center: Coords<int>,
    radius: int,
    delta: int,
    cap: int,
) -> Seq<Voxel> {
    Seq::new(
        field.len(),
        |index: int|
            if is_touched(size, center, radius, index) {
                Voxel {
                    value: shifted_value(field[index].value as int, delta, cap) as i32,
                    material: field[index].material,
                }
            } else {
                field[index]
            },
    )
}

/// Whether the cubic neighbourhood of `radius` shells around `center`
/// reaches beyond a field of edge length `size`.
pub open spec fn reaches_outside(size: int, center: Coords<int>, radius: int) -> bool {
    radius >= 1 && !(in_bounds(
        size,
        center.x - (radius - 1),
        center.y - (radius - 1),
        center.z - (radius - 1),
    ) && in_bounds(
        size,
        center.x + (radius - 1),
        center.y + (radius - 1),
        center.z + (radius - 1),
    ))
}

/// A coordinate kept within 0 and 255.
pub open spec fn kept_in_range(a: int) -> int {
    if a < 0 {
        0
    } else if a > 255 {
        255
    } else {
        a
    }
}

/// Lowest corner of the neighbourhood of `radius >= 1` shells around
/// `center`, as far as voxel coordinates reach.
pub open spec fn touch_lo(center: Coords<int>, radius: int) -> Coords<int> {
    Coords {
        x: kept_in_range(center.x - (radius - 1)),
        y: kept_in_range(center.y - (radius - 1)),
        z: kept_in_range(center.z - (radius - 1)),
    }
}

/// Highest corner of the neighbourhood of `radius >= 1` shells around
/// `center`, as far as voxel coordinates reach.
pub open spec fn touch_hi(center: Coords<int>, radius: int) -> Coords<int> {
    Coords {
        x: kept_in_range(center.x + (radius - 1)),
        y: kept_in_range(center.y + (radius - 1)),
        z: kept_in_range(center.z + (radius - 1)),
    }
}

/// Edge length of a field after a fill of `radius` shells around `center`:
/// where the neighbourhood reaches beyond the field, the field grows to
/// hold its active voxels and the neighbourhood; else it keeps its size.
pub open spec fn filled_size(field: Seq<Voxel>, size: int, center: Coords<int>, radius: int)
    -> int {
    if reaches_outside(size, center, radius) {
        grown_size(
            size,
            corner_min(active_lo(field, size), touch_lo(center, radius)),
            corner_max(active_hi(field, size), touch_hi(center, radius)),
        )
    } else {
        size
    }
}

/// The sum `count + more`, kept within `u32`.
pub open spec fn saturating_count(count: int, more: int) -> int {
    if count + more > u32::MAX {
        u32::MAX as int
    } else {
        count + more
    }
}

fn keep_in_range(a: i64) -> (kept: u8)
    ensures
        kept == kept_in_range(a as int),
{
    if a < 0 {
        0
    } else if a > 255 {
        255
    } else {
        a as u8
    }
}

impl Clone for ProceduralEntity {
    /// A copy with the same field, vertices and counters.
    fn clone(&self) -> (copy: Self)
        ensures
            copy.field_size == self.field_size,
            copy.voxel_field@ == self.voxel_field@,
            copy.vertices@ == self.vertices@,
            copy.modification_count == self.modification_count,
            copy.modification_threshold == self.modification_threshold,
    {
        let mut voxel_field: Vec<Voxel> = Vec::new();
        let mut i: usize = 0;
        while i < self.voxel_field.len()
            invariant
                i <= self.voxel_field.len(),
                voxel_field.len() == i,
                forall|j: int| 0 <= j < i ==> voxel_field[j] == self.voxel_field[j],
            decreases self.voxel_field.len() - i,
        {
            voxel_field.push(self.voxel_field[i]);
            i += 1;
        }
        let mut vertices: Vec<Vertex> = Vec::new();
        let mut k: usize = 0;
        while k < self.vertices.len()
            invariant
                k <= self.vertices.len(),
                vertices.len() == k,
                forall|j: int| 0 <= j < k ==> vertices[j] == self.vertices[j],
            decreases self.vertices.len() - k,
        {
            vertices.push(self.vertices[k]);
            k += 1;
        }
        assert(voxel_field@ =~= self.voxel_field@);
        assert(vertices@ =~= self.vertices@);
        ProceduralEntity {
            field_size: self.field_size,
            voxel_field,
            vertices,
            modification_count: self.modification_count,
            modification_threshold: self.modification_threshold,
        }
    }
}

impl ProceduralEntity {
    /// Replaces the vertices by the surface of the field as it is now.
    pub fn generate_vertices(&mut self)
        requires
            old(self).wf(),
        ensures
            final(self).wf(),
            final(self).vertices@ == surface(
                old(self).voxel_field@,
                old(self).field_size as int,
            ),
            final(self).field_size == old(self).field_size,
            final(self).voxel_field == old(self).voxel_field,
            final(self).modification_count == old(self).modification_count,
            final(self).modification_threshold == old(self).modification_threshold,
    {
        self.vertices.clear();
        find_triangles(&mut self.vertices, &self.voxel_field, self.field_size as u32);
        assert(self.vertices@ =~= surface(self.voxel_field@, self.field_size as int));
    }

    /// Shifts by `delta`, and caps at `cap`, the density of every voxel of
    /// the field in the cubic neighbourhood of `radius` shells around
    /// `center`. Positions of the neighbourhood outside the field are
    /// skipped. Returns the number of voxels that were touched.
    pub fn shift_neighborhood(&mut self, center: VoxelCoords, radius: usize, delta: i64, cap: i32)
        -> (touched: usize)
        requires
            old(self).wf(),
            -0x8000_0000 <= delta <= 0x8000_0000,
        ensures
            final(self).wf(),
            final(self).field_size == old(self).field_size,
            final(self).voxel_field@ == shifted_field(
                old(self).voxel_field@,
                old(self).field_size as int,
                center.ints(),
                radius as int,
                delta as int,
                cap as int,
            ),
            touched == count_true(
                touched_cells(old(self).field_size as int, center.ints(), radius as int),
            ),
            touched <= old(self).voxel_field.len(),
            final(self).vertices == old(self).vertices,
            final(self).modification_count == old(self).modification_count,
            final(self).modification_threshold == old(self).modification_threshold,
    {
        let reach: usize = if radius < MAX_FIELD_SIZE {
            radius
        } else {
            MAX_FIELD_SIZE
        };
        let ghost field = self.voxel_field@;
        let ghost size = self.field_size as int;
        let ghost mid = center.ints();
        let mut iter = center.iter_around(reach);
        let mut touched: usize = 0;
        proof {
            assert forall|offset: Coords<int>| !visited_before(offset, iter.current()) by {
                lemma_shell_start(0, offset);
            }
            lemma_count_true_none(
                Seq::new(
                    field.len(),
                    |j: int| visited_before(offset_of_index(size, mid, j), iter.current()),
                ),
            );
            assert(self.voxel_field@ =~= field);
        }
        loop
            invariant_except_break
                iter.wf(),
                iter.start() == center.widened(),
                iter.radius() == reach,
                forall|j: int|
                    0 <= j < field.len() ==> #[trigger] self.voxel_field[j] == if visited_before(
                        offset_of_index(size, mid, j),
                        iter.current(),
                    ) {
                        Voxel {
                            value: shifted_value(field[j].value as int, delta as int, cap as int)
                                as i32,
                            material: field[j].material,
                        }
                    } else {
                        field[j]
                    },
                touched == count_true(
                    Seq::new(
                        field.len(),
                        |j: int| visited_before(offset_of_index(size, mid, j), iter.current()),
                    ),
                ),
            invariant
                self.wf(),
                -0x8000_0000 <= delta <= 0x8000_0000,
                size == self.field_size as int,
                self.field_size == old(self).field_size,
                field == old(self).voxel_field@,
                field.len() == self.voxel_field.len(),
                mid == center.ints(),
                reach == if radius < MAX_FIELD_SIZE {
                    radius
                } else {
                    MAX_FIELD_SIZE
                },
                self.vertices == old(self).vertices,
                self.modification_count == old(self).modification_count,
                self.modification_threshold == old(self).modification_threshold,
            ensures
                self.voxel_field@ == shifted_field(
                    field,
                    size,
                    mid,
                    radius as int,
                    delta as int,
                    cap as int,
                ),
                touched == count_true(touched_cells(size, mid, radius as int)),
            decreases reach - shell_of(iter.current()), remaining_in_shell(iter.current()),
        {
            let ghost before = iter.current();
            let ghost flags = Seq::new(
                field.len(),
                |j: int| visited_before(offset_of_index(size, mid, j), before),
            );
            proof {
                iter.lemma_current_shell();
                lemma_next_offset_is_later(before);
                lemma_remaining_decreases(before);
                lemma_count_true_bound(flags);
            }
            match iter.next() {
                Some(c) => {
                    let ghost after = iter.current();
                    let ghost flags_after = Seq::new(
                        field.len(),
                        |j: int| visited_before(offset_of_index(size, mid, j), after),
                    );
                    proof {
                        assert forall|j: int| 0 <= j < field.len() implies (visited_before(
                            offset_of_index(size, mid, j),
                            after,
                        ) <==> (visited_before(offset_of_index(size, mid, j), before)
                            || offset_of_index(size, mid, j) == before)) by {
                            let o = offset_of_index(size, mid, j);
                            lemma_next_offset_is_adjacent(before, o);
                            lemma_visited_before_total(before, o);
                            if visited_before(o, before) {
                                lemma_visited_before_transitive(o, before, after);
                            }
                        }
                    }
                    if 0 <= c.x && c.x < 256 && 0 <= c.y && c.y < 256 && 0 <= c.z && c.z < 256 {
                        let pos = VoxelCoords::new(c.x as u8, c.y as u8, c.z as u8);
                        match linearize(self.field_size, pos) {
                            Some(index) => {
                                proof {
                                    lemma_coords_of_linear_index(
                                        size,
                                        pos.x as int,
                                        pos.y as int,
                                        pos.z as int,
                                    );
                                    assert(offset_of_index(size, mid, index as int) == before);
                                    lemma_visited_before_total(before, before);
                                    assert forall|j: int|
                                        0 <= j < field.len() && j != index implies offset_of_index(
                                        size,
                                        mid,
                                        j,
                                    ) != before by {
                                        lemma_linear_index_of_coords(size, j);
                                    }
                                    assert(flags_after =~= flags.update(index as int, true));
                                    lemma_count_true_raise(flags, index as int);
                                    lemma_count_true_bound(flags_after);
                                }
                                let voxel = self.voxel_field[index];
                                let sum: i64 = voxel.value as i64 + delta;
                                let value: i32 = if sum > cap as i64 {
                                    cap
                                } else if sum < i32::MIN as i64 {
                                    i32::MIN
                                } else {
                                    sum as i32
                                };
                                self.voxel_field.set(
                                    index,
                                    Voxel { value, material: voxel.material },
                                );
                                touched += 1;
                            },
                            None => {
                                proof {
                                    assert forall|j: int|
                                        0 <= j < field.len() implies offset_of_index(size, mid, j)
                                        != before by {
                                        lemma_linear_index_of_coords(size, j);
                                    }
                                    assert(flags_after =~= flags);
                                }
                            },
                        }
                    } else {
                        proof {
                            assert forall|j: int|
                                0 <= j < field.len() implies offset_of_index(size, mid, j)
                                != before by {
                                lemma_linear_index_of_coords(size, j);
                            }
                            assert(flags_after =~= flags);
                        }
                    }
                },
                None => {
                    proof {
                        assert forall|j: int| 0 <= j < field.len() implies (visited_before(
                            offset_of_index(size, mid, j),
                            before,
                        ) <==> is_touched(size, mid, radius as int, j)) by {
                            let o = offset_of_index(size, mid, j);
                            iter.lemma_exhausted_rest(o);
                            lemma_linear_index_of_coords(size, j);
                        }
                        assert(flags =~= touched_cells(size, mid, radius as int));
                        assert(self.voxel_field@ =~= shifted_field(
                            field,
                            size,
                            mid,
                            radius as int,
                            delta as int,
                            cap as int,
                        ));
                    }
                    break ;
                },
            }
        }
        proof {
            lemma_count_true_bound(touched_cells(size, mid, radius as int));
        }
        touched
    }

    /// Carves material out of the field: lowers by `carve_speed` the density
    /// of every voxel in the cubic neighbourhood of `carve_radius` shells
    /// around the voxel that `hit_position` lies in, without a lower bound
    /// but that of `i32`, and counts each lowered voxel as a modification.
    /// Positions outside the field are skipped: carving never grows the
    /// field. Returns the regions that the carved field falls into.
    pub fn carve(&mut self, hit_position: WorldCoords, carve_speed: i32, carve_radius: usize) -> (entities:
        Vec<ProceduralEntity>)
        requires
            old(self).wf(),
        ensures
            final(self).wf(),
            final(self).field_size == old(self).field_size,
            final(self).voxel_field@ == shifted_field(
                old(self).voxel_field@,
                old(self).field_size as int,
                hit_voxel(hit_position).ints(),
                carve_radius as int,
                -carve_speed,
                i32::MAX as int,
            ),
            final(self).modification_count == saturating_count(
                old(self).modification_count as int,
                count_true(
                    touched_cells(
                        old(self).field_size as int,
                        hit_voxel(hit_position).ints(),
                        carve_radius as int,
                    ),
                ) as int,
            ),
            final(self).vertices == old(self).vertices,
            final(self).modification_threshold == old(self).modification_threshold,
            entities.len() == regions(final(self).voxel_field@, final(self).field_size as int).len(),
            forall|k: int|
                0 <= k < entities.len() ==> {
                    &&& (#[trigger] entities[k]).wf()
                    &&& entities[k].field_size == final(self).field_size
                    &&& entities[k].voxel_field@ == regions(
                        final(self).voxel_field@,
                        final(self).field_size as int,
                    )[k]
                    &&& entities[k].vertices@ == Seq::<Vertex>::empty()
                    &&& entities[k].modification_count == final(self).modification_count
                    &&& entities[k].modification_threshold == final(self).modification_threshold
                },
    {
        let voxel_coords = voxel_of_hit(hit_position);
        let touched = self.shift_neighborhood(
            voxel_coords,
            carve_radius,
            -(carve_speed as i64),
            i32::MAX,
        );
        proof {
            crate::common::indexing::lemma_volume_bound(self.field_size as int);
        }
        self.modification_count = if touched as u64 + self.modification_count as u64
            > u32::MAX as u64 {
            u32::MAX
        } else {
            self.modification_count + touched as u32
        };
        self.extract_regions()
    }

    /// Fills material into the field: raises by `fill_speed`, to at most
    /// `FULL_VALUE`, the density of every voxel in the cubic neighbourhood
    /// of `fill_radius` shells around the voxel that `hit_position` lies in.
    /// Where the neighbourhood reaches beyond the field, the field first
    /// grows to hold its active voxels and the neighbourhood; positions
    /// that are still outside are skipped. Filling never shrinks and never
    /// splits the field: it returns one entity, a copy of this one.
    pub fn fill(&mut self, hit_position: WorldCoords, fill_speed: i32, fill_radius: usize) -> (entities:
        Vec<ProceduralEntity>)
        requires
            old(self).wf(),
        ensures
            final(self).wf(),
            final(self).field_size == filled_size(
                old(self).voxel_field@,
                old(self).field_size as int,
                hit_voxel(hit_position).ints(),
                fill_radius as int,
            ),
            final(self).field_size >= old(self).field_size,
            final(self).voxel_field@ == shifted_field(
                regrown_field(
                    old(self).voxel_field@,
                    old(self).field_size as int,
                    final(self).field_size as int,
                ),
                final(self).field_size as int,
                hit_voxel(hit_position).ints(),
                fill_radius as int,
                fill_speed as int,
                FULL_VALUE as int,
            ),
            final(self).vertices == old(self).vertices,
            final(self).modification_count == old(self).modification_count,
            final(self).modification_threshold == old(self).modification_threshold,
            entities.len() == 1,
            entities[0].field_size == final(self).field_size,
            entities[0].voxel_field@ == final(self).voxel_field@,
            entities[0].vertices@ == final(self).vertices@,
            entities[0].modification_count == final(self).modification_count,
            entities[0].modification_threshold == final(self).modification_threshold,
    {
        let voxel_coords = voxel_of_hit(hit_position);
        let ghost field = self.voxel_field@;
        let ghost size = self.field_size as int;
        let mut should_increase = false;
        let mut lo = voxel_coords;
        let mut hi = voxel_coords;
        if fill_radius >= 1 {
            let span: i64 = if fill_radius - 1 < MAX_FIELD_SIZE {
                (fill_radius - 1) as i64
            } else {
                MAX_FIELD_SIZE as i64
            };
            let size = self.field_size as i64;
            should_increase = voxel_coords.x as i64 - span < 0 || voxel_coords.y as i64 - span < 0
                || voxel_coords.z as i64 - span < 0 || voxel_coords.x as i64 + span >= size
                || voxel_coords.y as i64 + span >= size || voxel_coords.z as i64 + span >= size;
            lo = VoxelCoords::new(
                keep_in_range(voxel_coords.x as i64 - span),
                keep_in_range(voxel_coords.y as i64 - span),
                keep_in_range(voxel_coords.z as i64 - span),
            );
            hi = VoxelCoords::new(
                keep_in_range(voxel_coords.x as i64 + span),
                keep_in_range(voxel_coords.y as i64 + span),
                keep_in_range(voxel_coords.z as i64 + span),
            );
        }
        assert(should_increase == reaches_outside(size, voxel_coords.ints(), fill_radius as int));
        if should_increase {
            assert(lo.ints() == touch_lo(voxel_coords.ints(), fill_radius as int));
            assert(hi.ints() == touch_hi(voxel_coords.ints(), fill_radius as int));
            self.grow_to_include(lo, hi);
        } else {
            proof {
                lemma_regrow_same_size(field, size);
            }
        }
        self.shift_neighborhood(voxel_coords, fill_radius, fill_speed as i64, FULL_VALUE);
        let mut entities: Vec<ProceduralEntity> = Vec::new();
        entities.push(self.clone());
        entities
    }

    /// Brings an entity that came out of a deformation up to date: where
    /// its modifications have reached its threshold, the field is cropped to
    /// its active region and the count starts again at zero; then the
    /// vertices are regenerated from the field.
    pub fn finish_deformation(&mut self)
        requires
            old(self).wf(),
        ensures
            final(self).wf(),
            final(self).modification_threshold == old(self).modification_threshold,
            old(self).modification_count >= old(self).modification_threshold ==> {
                &&& final(self).field_size == cropped_size(
                    old(self).voxel_field@,
                    old(self).field_size as int,
                )
                &&& final(self).voxel_field@ == cropped_field(
                    old(self).voxel_field@,
                    old(self).field_size as int,
                )
                &&& final(self).modification_count == 0
            },
            old(self).modification_count < old(self).modification_threshold ==> {
                &&& final(self).field_size == old(self).field_size
                &&& final(self).voxel_field@ == old(self).voxel_field@
                &&& final(self).modification_count == old(self).modification_count
            },
            final(self).vertices@ == surface(
                final(self).voxel_field@,
                final(self).field_size as int,
            ),
    {
        if self.modification_count >= self.modification_threshold {
            self.minimize_field_size();
            self.modification_count = 0;
        }
        self.generate_vertices();
    }
}

} // verus!
