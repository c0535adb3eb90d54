use std::collections::VecDeque;
use vstd::prelude::*;
use crate::common::constants::FOREIGN_VALUE;
use crate::common::coords::VoxelCoords;
use crate::common::indexing::{linearize, volume};
use crate::common::vertex::Vertex;
use crate::common::voxel_material::VoxelMaterial;
use crate::common::voxels::Voxel;
use crate::procedural_entity::connectivity::{
    component,
    component_size,
    connected,
    count_false,
    lemma_closed_set_holds_component,
    lemma_connected_ends,
    lemma_connected_self,
    lemma_connected_step,
    lemma_connected_symmetric,
    lemma_connected_transitive,
    lemma_count_false_bound,
    lemma_count_false_raise,
    lemma_count_false_union,
    neighbor_index,
};
use crate::procedural_entity::ProceduralEntity;

verus! {

/// What stands, in the field of a region, in the place of a voxel that does
/// not belong to the region: a voxel of positive density, which is part of
/// another solid, leaves a faintly empty mark; in the place of any other
/// the field is empty.
pub open spec fn outside_region(voxel: Voxel) -> Voxel {
    if voxel.value > 0 {
        Voxel { value: FOREIGN_VALUE, material: VoxelMaterial::AIR }
    } else {
        Voxel::empty()
    }
}

/// The field that isolates the component of the voxel stored at `seed`: an
/// empty field of the same size that holds the voxels of the component as
/// they are, and a faintly empty mark where another solid lies.
pub open spec fn region_field(field: Seq<Voxel>, size: int, seed: int) -> Seq<Voxel> {
    Seq::new(
        field.len(),
        |j: int|
            if connected(field, size, seed, j) {
                field[j]
            } else {
                outside_region(field[j])
            },
    )
}

/// The voxel stored at `index` is the first voxel, in storage order, of its
/// component.
pub open spec fn is_region_seed(field: Seq<Voxel>, size: int, index: int) -> bool {
    &&& 0 <= index < field.len()
    &&& field[index].is_active()
    &&& forall|j: int| 0 <= j < index ==> !connected(field, size, j, index)
}

/// The fields of the regions whose first voxel is stored before `upto`, in
/// the order of their first voxels. A component of a single voxel is noise
/// and makes no region.
pub open spec fn regions_before(field: Seq<Voxel>, size: int, upto: int) -> Seq<Seq<Voxel>>
    decreases upto,
{
    if upto <= 0 {
        Seq::empty()
    } else if is_region_seed(field, size, upto - 1) && component_size(field, size, upto - 1) > 1 {
        regions_before(field, size, upto - 1).push(region_field(field, size, upto - 1))
    } else {
        regions_before(field, size, upto - 1)
    }
}

/// The fields of all regions of a field: one for each 6-connected component
/// of more than one active voxel.
pub open spec fn regions(field: Seq<Voxel>, size: int) -> Seq<Seq<Voxel>> {
    regions_before(field, size, field.len() as int)
}

/// Whether `index` waits in the queue.
pub open spec fn queued(queue: Seq<usize>, index: int) -> bool {
    exists|k: int| 0 <= k < queue.len() && #[trigger] queue[k] == index
}

impl ProceduralEntity {
    /// The index of the voxel one step in direction `dir` from the voxel
    /// stored at `index`; `None` where the step leaves the field.
    pub fn neighbor(&self, index: usize, dir: u8) -> (r: Option<usize>)
        requires
            self.wf(),
            index < self.voxel_field.len(),
            dir < 6,
        ensures
            match r {
                Some(n) => n == neighbor_index(self.field_size as int, index as int, dir as int)
                    && n < self.voxel_field.len(),
                None => neighbor_index(self.field_size as int, index as int, dir as int) == -1,
            },
    {
        let pos = self.index_to_coords(index);
        let x: i64 = pos.x as i64 + if dir == 0 {
            1
        } else if dir == 1 {
            -1
        } else {
            0
        };
        let y: i64 = pos.y as i64 + if dir == 2 {
            1
        } else if dir == 3 {
            -1
        } else {
            0
        };
        let z: i64 = pos.z as i64 + if dir == 4 {
            1
        } else if dir == 5 {
            -1
        } else {
            0
        };
        if 0 <= x && x < 256 && 0 <= y && y < 256 && 0 <= z && z < 256 {
            linearize(self.field_size, VoxelCoords::new(x as u8, y as u8, z as u8))
        } else {
            None
        }
    }

    /// Breadth-first traversal of the component of the active voxel stored at
    /// `start_index`, none of whose voxels is marked in `visited` yet. Marks
    /// every voxel of the component in `visited`, copies each into
    /// `region_voxels`, and adds their number to `positive_voxel_count`.
    pub fn flood_fill_collect(
        &self,
        start_index: usize,
        visited: &mut Vec<bool>,
        region_voxels: &mut Vec<Voxel>,
        positive_voxel_count: &mut usize,
    )
        requires
            self.wf(),
            start_index < self.voxel_field.len(),
            self.voxel_field[start_index as int].is_active(),
            old(visited).len() == self.voxel_field.len(),
            old(region_voxels).len() == self.voxel_field.len(),
            forall|j: int|
                0 <= j < self.voxel_field.len() && connected(
                    self.voxel_field@,
                    self.field_size as int,
                    start_index as int,
                    j,
                ) ==> !old(visited)[j],
            *old(positive_voxel_count) + self.voxel_field.len() <= usize::MAX,
        ensures
            final(visited).len() == self.voxel_field.len(),
            forall|j: int|
                0 <= j < self.voxel_field.len() ==> final(visited)[j] == (old(visited)[j]
                    || connected(
                    self.voxel_field@,
                    self.field_size as int,
                    start_index as int,
                    j,
                )),
            final(region_voxels).len() == self.voxel_field.len(),
            forall|j: int|
                0 <= j < self.voxel_field.len() ==> final(region_voxels)[j] == if connected(
                    self.voxel_field@,
                    self.field_size as int,
                    start_index as int,
                    j,
                ) {
                    self.voxel_field[j]
                } else {
                    old(region_voxels)[j]
                },
            *final(positive_voxel_count) == *old(positive_voxel_count) + component_size(
                self.voxel_field@,
                self.field_size as int,
                start_index as int,
            ),
    {
        let ghost field = self.voxel_field@;
        let ghost size = self.field_size as int;
        let ghost start = start_index as int;
        let ghost visited0 = visited@;
        let ghost region0 = region_voxels@;
        let ghost count0 = *positive_voxel_count as int;
        let mut queue: VecDeque<usize> = VecDeque::new();
        queue.push_back(start_index);
        proof {
            lemma_connected_self(field, size, start);
            assert(queue@[0] == start_index);
            lemma_count_false_bound(visited0);
        }
        while queue.len() > 0
            invariant
                self.wf(),
                field == self.voxel_field@,
                size == self.field_size as int,
                start == start_index as int,
                0 <= start < field.len(),
                visited.len() == field.len(),
                visited0.len() == field.len(),
                region_voxels.len() == field.len(),
                region0.len() == field.len(),
                forall|j: int|
                    0 <= j < field.len() && connected(field, size, start, j) ==> !visited0[j],
                forall|j: int| 0 <= j < field.len() && visited0[j] ==> visited[j],
                forall|j: int|
                    0 <= j < field.len() && visited[j] && !visited0[j] ==> connected(
                        field,
                        size,
                        start,
                        j,
                    ),
                forall|k: int|
                    0 <= k < queue@.len() ==> (#[trigger] queue@[k]) < field.len() && connected(
                        field,
                        size,
                        start,
                        queue@[k] as int,
                    ),
                forall|j: int, dir: int|
                    0 <= j < field.len() && visited[j] && !visited0[j] && 0 <= dir < 6 && 0
                        <= #[trigger] neighbor_index(size, j, dir) < field.len()
                        && field[neighbor_index(size, j, dir)].is_active() ==> visited[neighbor_index(
                        size,
                        j,
                        dir,
                    )] || queued(queue@, neighbor_index(size, j, dir)),
                visited[start] || queued(queue@, start),
                forall|j: int|
                    0 <= j < field.len() ==> #[trigger] region_voxels[j] == if visited[j]
                        && !visited0[j] {
                        field[j]
                    } else {
                        region0[j]
                    },
                *positive_voxel_count + count_false(visited@) == count0 + count_false(visited0),
                count0 + field.len() <= usize::MAX,
                count_false(visited0) <= field.len(),
            decreases count_false(visited@), queue@.len(),
        {
            let ghost queue_before = queue@;
            let popped = queue.pop_front();
            if let Some(index) = popped {
                proof {
                    assert forall|w: int| queued(queue_before, w) implies w == index || queued(
                        queue@,
                        w,
                    ) by {
                        let k = choose|k: int|
                            0 <= k < queue_before.len() && #[trigger] queue_before[k] == w;
                        if k > 0 {
                            assert(queue@[k - 1] == w);
                        }
                    }
                    assert(queue_before[0] == index);
                    assert forall|k: int| 0 <= k < queue@.len() implies (#[trigger] queue@[k])
                        < field.len() && connected(field, size, start, queue@[k] as int) by {
                        assert(queue@[k] == queue_before[k + 1]);
                    }
                }
                if !visited[index] {
                    let ghost visited_then = visited@;
                    proof {
                        lemma_count_false_raise(visited@, index as int);
                    }
                    visited.set(index, true);
                    if self.voxel_field[index].is_active() {
                        region_voxels.set(index, self.voxel_field[index]);
                        *positive_voxel_count += 1;
                    }
                    proof {
                        lemma_connected_ends(field, size, start, index as int);
                    }
                    let mut dir: u8 = 0;
                    while dir < 6
                        invariant
                            self.wf(),
                            field == self.voxel_field@,
                            size == self.field_size as int,
                            0 <= start < field.len(),
                            index < field.len(),
                            connected(field, size, start, index as int),
                            visited.len() == field.len(),
                            visited0.len() == field.len(),
                            visited_then.len() == field.len(),
                            visited@ == visited_then.update(index as int, true),
                            dir <= 6,
                            forall|k: int|
                                0 <= k < queue@.len() ==> (#[trigger] queue@[k]) < field.len()
                                    && connected(field, size, start, queue@[k] as int),
                            forall|d: int|
                                0 <= d < dir && 0 <= #[trigger] neighbor_index(
                                    size,
                                    index as int,
                                    d,
                                ) < field.len() && field[neighbor_index(
                                    size,
                                    index as int,
                                    d,
                                )].is_active() ==> visited[neighbor_index(size, index as int, d)]
                                    || queued(queue@, neighbor_index(size, index as int, d)),
                            forall|j: int, d: int|
                                0 <= j < field.len() && visited_then[j] && !visited0[j] && 0 <= d
                                    < 6 && 0 <= #[trigger] neighbor_index(size, j, d) < field.len()
                                    && field[neighbor_index(size, j, d)].is_active()
                                    ==> visited[neighbor_index(size, j, d)] || queued(
                                    queue@,
                                    neighbor_index(size, j, d),
                                ),
                            visited[start] || queued(queue@, start),
                        decreases 6 - dir,
                    {
                        let ghost queue_then = queue@;
                        match self.neighbor(index, dir) {
                            Some(n_index) => {
                                if !visited[n_index] && self.voxel_field[n_index].is_active() {
                                    queue.push_back(n_index);
                                    proof {
                                        lemma_connected_step(
                                            field,
                                            size,
                                            start,
                                            index as int,
                                            dir as int,
                                        );
                                        assert(queue@[queue@.len() - 1] == n_index);
                                        assert forall|w: int| queued(queue_then, w) implies queued(
                                            queue@,
                                            w,
                                        ) by {
                                            let k = choose|k: int|
                                                0 <= k < queue_then.len()
                                                    && #[trigger] queue_then[k] == w;
                                            assert(queue@[k] == w);
                                        }
                                        assert forall|k: int| 0 <= k < queue@.len() implies (
                                        #[trigger] queue@[k]) < field.len() && connected(
                                            field,
                                            size,
                                            start,
                                            queue@[k] as int,
                                        ) by {
                                            if k < queue_then.len() {
                                                assert(queue@[k] == queue_then[k]);
                                            }
                                        }
                                    }
                                }
                            },
                            None => {},
                        }
                        dir += 1;
                    }
                }
            }
        }
        proof {
            assert(!queued(queue@, start));
            assert forall|j: int| 0 <= j < field.len() implies visited[j] == (visited0[j]
                || connected(field, size, start, j)) by {
                if connected(field, size, start, j) {
                    let inside = Seq::new(field.len(), |w: int| visited[w] && !visited0[w]);
                    assert forall|w: int, dir: int|
                        0 <= w < field.len() && inside[w] && 0 <= dir < 6 && 0
                            <= #[trigger] neighbor_index(size, w, dir) < field.len()
                            && field[neighbor_index(size, w, dir)].is_active() implies inside[neighbor_index(
                        size,
                        w,
                        dir,
                    )] by {
                        let n = neighbor_index(size, w, dir);
                        assert(!queued(queue@, n));
                        lemma_connected_step(field, size, start, w, dir);
                    }
                    lemma_closed_set_holds_component(field, size, start, inside, j);
                }
            }
            assert forall|j: int| 0 <= j < field.len() implies region_voxels[j] == if connected(
                field,
                size,
                start,
                j,
            ) {
                field[j]
            } else {
                region0[j]
            } by {
                assert(visited[j] == (visited0[j] || connected(field, size, start, j)));
                if connected(field, size, start, j) {
                    assert(!visited0[j]);
                }
            }
            let members = component(field, size, start);
            lemma_count_false_union(visited0, members, visited@);
        }
    }

    /// Splits the field into its regions: one new entity for each 6-connected
    /// component of more than one active voxel, in the order of their first
    /// voxels. Each has the size, the modification count and the threshold
    /// of this entity, the field that isolates its component, and no
    /// vertices yet.
    pub fn extract_regions(&self) -> (entities: Vec<ProceduralEntity>)
        requires
            self.wf(),
        ensures
            entities.len() == regions(self.voxel_field@, self.field_size as int).len(),
            forall|k: int|
                0 <= k < entities.len() ==> {
                    &&& (#[trigger] entities[k]).wf()
                    &&& entities[k].field_size == self.field_size
                    &&& entities[k].voxel_field@ == regions(
                        self.voxel_field@,
                        self.field_size as int,
                    )[k]
                    &&& entities[k].vertices@ == Seq::<Vertex>::empty()
                    &&& entities[k].modification_count == self.modification_count
                    &&& entities[k].modification_threshold == self.modification_threshold
                },
    {
        let ghost field = self.voxel_field@;
        let ghost size = self.field_size as int;
        let total = self.voxel_field.len();
        let mut visited: Vec<bool> = Vec::new();
        let mut n: usize = 0;
        while n < total
            invariant
                n <= total,
                visited.len() == n,
                forall|j: int| 0 <= j < n ==> !visited[j],
            decreases total - n,
        {
            visited.push(false);
            n += 1;
        }
        let mut new_entities: Vec<ProceduralEntity> = Vec::new();
        let mut i: usize = 0;
        while i < total
            invariant
                self.wf(),
                field == self.voxel_field@,
                size == self.field_size as int,
                total == field.len(),
                i <= total,
                visited.len() == total,
                forall|j: int|
                    0 <= j < total ==> (#[trigger] visited[j] <==> exists|s: int|
                        0 <= s < i && connected(field, size, s, j)),
                new_entities.len() == regions_before(field, size, i as int).len(),
                forall|k: int|
                    0 <= k < new_entities.len() ==> {
                        &&& (#[trigger] new_entities[k]).wf()
                        &&& new_entities[k].field_size == self.field_size
                        &&& new_entities[k].voxel_field@ == regions_before(field, size, i as int)[k]
                        &&& new_entities[k].vertices@ == Seq::<Vertex>::empty()
                        &&& new_entities[k].modification_count == self.modification_count
                        &&& new_entities[k].modification_threshold == self.modification_threshold
                    },
            decreases total - i,
        {
            if !visited[i] && self.voxel_field[i].is_active() {
                let mut region_voxels = self.outside_field();
                let mut positive_voxel_count: usize = 0;
                proof {
                    assert forall|j: int|
                        0 <= j < total && connected(field, size, i as int, j) implies !visited[j] by {
                        if visited[j] {
                            let s = choose|s: int| 0 <= s < i && connected(field, size, s, j);
                            lemma_connected_symmetric(field, size, i as int, j);
                            lemma_connected_transitive(field, size, s, j, i as int);
                            assert(visited[i as int]);
                        }
                    }
                    assert(is_region_seed(field, size, i as int));
                }
                self.flood_fill_collect(
                    i,
                    &mut visited,
                    &mut region_voxels,
                    &mut positive_voxel_count,
                );
                assert(region_voxels@ =~= region_field(field, size, i as int));
                if positive_voxel_count > 1 {
                    let new_entity = ProceduralEntity {
                        field_size: self.field_size,
                        voxel_field: region_voxels,
                        vertices: Vec::new(),
                        modification_count: self.modification_count,
                        modification_threshold: self.modification_threshold,
                    };
                    new_entities.push(new_entity);
                }
            } else {
                proof {
                    if self.voxel_field[i as int].is_active() {
                        let s = choose|s: int| 0 <= s < i && connected(field, size, s, i as int);
                        assert(!is_region_seed(field, size, i as int));
                        assert forall|j: int|
                            0 <= j < total && connected(
                                field,
                                size,
                                i as int,
                                j,
                            ) implies visited[j] by {
                            lemma_connected_transitive(field, size, s, i as int, j);
                        }
                    } else {
                        assert forall|j: int| 0 <= j < total implies !connected(
                            field,
                            size,
                            i as int,
                            j,
                        ) by {
                            if connected(field, size, i as int, j) {
                                lemma_connected_ends(field, size, i as int, j);
                            }
                        }
                    }
                }
            }
            i += 1;
        }
        new_entities
    }

    /// The field that holds at the place of every voxel what
    /// `outside_region` puts there: what the field of a region holds outside
    /// the region.
    fn outside_field(&self) -> (region: Vec<Voxel>)
        requires
            self.wf(),
        ensures
            region.len() == self.voxel_field.len(),
            forall|j: int|
                0 <= j < region.len() ==> #[trigger] region[j] == outside_region(
                    self.voxel_field[j],
                ),
    {
        let mut region: Vec<Voxel> = Vec::new();
        let mut j: usize = 0;
        while j < self.voxel_field.len()
            invariant
                j <= self.voxel_field.len(),
                region.len() == j,
                forall|k: int|
                    0 <= k < j ==> #[trigger] region[k] == outside_region(self.voxel_field[k]),
            decreases self.voxel_field.len() - j,
        {
            let v = self.voxel_field[j];
            if v.value > 0 {
                region.push(Voxel { value: FOREIGN_VALUE, material: VoxelMaterial::AIR });
            } else {
                region.push(Voxel::empty());
            }
            j += 1;
        }
        region
    }
}

/// In the field of a region exactly the voxels of the region's component
/// are active.
pub proof fn lemma_region_active_voxels(field: Seq<Voxel>, size: int, seed: int, index: int)
    requires
        0 <= index < field.len(),
    ensures
        region_field(field, size, seed)[index].is_active() <==> connected(
            field,
            size,
            seed,
            index,
        ),
{
    if connected(field, size, seed, index) {
        lemma_connected_ends(field, size, seed, index);
    }
}

/// Two connected voxels have the same component, and so the same region
/// field.
pub proof fn lemma_connected_voxels_share_region(field: Seq<Voxel>, size: int, a: int, b: int)
    requires
        0 < size,
        field.len() == volume(size),
        connected(field, size, a, b),
    ensures
        component(field, size, a) == component(field, size, b),
        region_field(field, size, a) == region_field(field, size, b),
{
    lemma_connected_symmetric(field, size, a, b);
    assert forall|j: int| 0 <= j < field.len() implies connected(field, size, a, j) == connected(
        field,
        size,
        b,
        j,
    ) by {
        if connected(field, size, a, j) {
            lemma_connected_transitive(field, size, b, a, j);
        }
        if connected(field, size, b, j) {
            lemma_connected_transitive(field, size, a, b, j);
        }
    }
    assert(component(field, size, a) =~= component(field, size, b));
    assert(region_field(field, size, a) =~= region_field(field, size, b));
}

/// Every active voxel is connected to the first voxel of its component.
pub proof fn lemma_component_has_seed(field: Seq<Voxel>, size: int, index: int) -> (seed: int)
    requires
        0 < size,
        field.len() == volume(size),
        0 <= index < field.len(),
        field[index].is_active(),
    ensures
        0 <= seed <= index,
        is_region_seed(field, size, seed),
        connected(field, size, seed, index),
    decreases index,
{
    if exists|j: int| 0 <= j < index && connected(field, size, j, index) {
        let j = choose|j: int| 0 <= j < index && connected(field, size, j, index);
        lemma_connected_ends(field, size, j, index);
        let seed = lemma_component_has_seed(field, size, j);
        lemma_connected_transitive(field, size, seed, j, index);
        seed
    } else {
        lemma_connected_self(field, size, index);
        index
    }
}

/// The region of every seed before `upto` whose component has more than one
/// voxel is among the regions before `upto`.
proof fn lemma_seed_region_is_listed(field: Seq<Voxel>, size: int, seed: int, upto: int)
    requires
        0 <= seed < upto,
        is_region_seed(field, size, seed),
        component_size(field, size, seed) > 1,
    ensures
        regions_before(field, size, upto).contains(region_field(field, size, seed)),
    decreases upto,
{
    let before = regions_before(field, size, upto - 1);
    if seed == upto - 1 {
        let listed = before.push(region_field(field, size, seed));
        assert(listed[listed.len() - 1] == region_field(field, size, seed));
    } else {
        lemma_seed_region_is_listed(field, size, seed, upto - 1);
        let k = choose|k: int|
            0 <= k < before.len() && before[k] == region_field(field, size, seed);
        if is_region_seed(field, size, upto - 1) && component_size(field, size, upto - 1) > 1 {
            let listed = before.push(region_field(field, size, upto - 1));
            assert(listed[k] == region_field(field, size, seed));
        }
    }
}

/// No piece is lost: every active voxel whose component has more than one
/// voxel finds the field that isolates its component among the regions. So a
/// field whose solid falls into two pieces yields a region for each.
pub proof fn lemma_component_has_region(field: Seq<Voxel>, size: int, index: int)
    requires
        0 < size,
        field.len() == volume(size),
        0 <= index < field.len(),
        field[index].is_active(),
        component_size(field, size, index) > 1,
    ensures
        regions(field, size).contains(region_field(field, size, index)),
{
    let seed = lemma_component_has_seed(field, size, index);
    lemma_connected_voxels_share_region(field, size, seed, index);
    lemma_seed_region_is_listed(field, size, seed, field.len() as int);
}

/// Every region is the field that isolates the component of a seed with
/// more than one voxel: nothing else is among the regions.
pub proof fn lemma_region_has_seed(field: Seq<Voxel>, size: int, upto: int, k: int) -> (seed: int)
    requires
        0 <= k < regions_before(field, size, upto).len(),
    ensures
        0 <= seed < upto,
        is_region_seed(field, size, seed),
        component_size(field, size, seed) > 1,
        regions_before(field, size, upto)[k] == region_field(field, size, seed),
    decreases upto,
{
    let before = regions_before(field, size, upto - 1);
    if is_region_seed(field, size, upto - 1) && component_size(field, size, upto - 1) > 1 && k
        == before.len() {
        upto - 1
    } else {
        lemma_region_has_seed(field, size, upto - 1, k)
    }
}

} // verus!
