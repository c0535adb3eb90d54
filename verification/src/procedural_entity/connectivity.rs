use vstd::prelude::*;
use crate::common::indexing::{
    in_bounds,
    index_x,
    index_y,
    index_z,
    lemma_coords_of_linear_index,
    lemma_linear_index_in_range,
    lemma_linear_index_of_coords,
    linear_index,
    volume,
};
use crate::common::voxels::Voxel;

verus! {

/// Step along x that the direction `dir` takes. The six directions are
/// numbered `+x, -x, +y, -y, +z, -z`.
pub open spec fn dir_dx(dir: int) -> int {
    if dir == 0 {
        1
    } else if dir == 1 {
        -1
    } else {
        0
    }
}

/// Step along y that the direction `dir` takes.
pub open spec fn dir_dy(dir: int) -> int {
    if dir == 2 {
        1
    } else if dir == 3 {
        -1
    } else {
        0
    }
}

/// Step along z that the direction `dir` takes.
pub open spec fn dir_dz(dir: int) -> int {
    if dir == 4 {
        1
    } else if dir == 5 {
        -1
    } else {
        0
    }
}

/// Index of the voxel one step in direction `dir` from the voxel stored at
/// `index`, or `-1` where that step leaves the field.
pub open spec fn neighbor_index(size: int, index: int, dir: int) -> int {
    let x = index_x(size, index) + dir_dx(dir);
    let y = index_y(size, index) + dir_dy(dir);
    let z = index_z(size, index) + dir_dz(dir);
    if in_bounds(size, x, y, z) {
        linear_index(size, x, y, z)
    } else {
        -1
    }
}

/// Two voxels of the field share a face.
pub open spec fn adjacent(size: int, a: int, b: int) -> bool {
    exists|dir: int| 0 <= dir < 6 && #[trigger] neighbor_index(size, a, dir) == b
}

/// `path` walks through active voxels of the field, each step crossing a
/// face.
pub open spec fn is_path(field: Seq<Voxel>, size: int, path: Seq<int>) -> bool {
    &&& path.len() > 0
    &&& forall|k: int|
        0 <= k < path.len() ==> 0 <= #[trigger] path[k] < field.len() && field[path[k]].is_active()
    &&& forall|k: int| 0 <= k < path.len() - 1 ==> adjacent(size, #[trigger] path[k], path[k + 1])
}

/// The voxels stored at `a` and `b` are active and belong to the same
/// 6-connected component of the active voxels.
pub open spec fn connected(field: Seq<Voxel>, size: int, a: int, b: int) -> bool {
    exists|path: Seq<int>| #[trigger]
        is_path(field, size, path) && path[0] == a && path[path.len() - 1] == b
}

/// Number of `true` entries.
pub open spec fn count_true(flags: Seq<bool>) -> nat
    decreases flags.len(),
{
    if flags.len() == 0 {
        0
    } else {
        count_true(flags.drop_last()) + if flags.last() {
            1nat
        } else {
            0nat
        }
    }
}

/// For every voxel of the field, whether it belongs to the component of the
/// voxel stored at `seed`.
pub open spec fn component(field: Seq<Voxel>, size: int, seed: int) -> Seq<bool> {
    Seq::new(field.len(), |j: int| connected(field, size, seed, j))
}

/// Number of voxels in the component of the voxel stored at `seed`.
pub open spec fn component_size(field: Seq<Voxel>, size: int, seed: int) -> nat {
    count_true(component(field, size, seed))
}

/// An active voxel is connected to itself.
pub proof fn lemma_connected_self(field: Seq<Voxel>, size: int, a: int)
    requires
        0 <= a < field.len(),
        field[a].is_active(),
    ensures
        connected(field, size, a, a),
{
    let path = seq![a];
    assert(is_path(field, size, path));
    assert(path[0] == a && path[path.len() - 1] == a);
}

/// Both ends of a connection are active voxels of the field.
pub proof fn lemma_connected_ends(field: Seq<Voxel>, size: int, a: int, b: int)
    requires
        connected(field, size, a, b),
    ensures
        0 <= a < field.len() && field[a].is_active(),
        0 <= b < field.len() && field[b].is_active(),
{
    let path = choose|path: Seq<int>| #[trigger]
        is_path(field, size, path) && path[0] == a && path[path.len() - 1] == b;
    assert(0 <= path[0] < field.len());
    assert(0 <= path[path.len() - 1] < field.len());
}

/// A connection extends by one step to an active neighbour.
pub proof fn lemma_connected_step(field: Seq<Voxel>, size: int, a: int, b: int, dir: int)
    requires
        connected(field, size, a, b),
        0 <= dir < 6,
        0 <= neighbor_index(size, b, dir) < field.len(),
        field[neighbor_index(size, b, dir)].is_active(),
    ensures
        connected(field, size, a, neighbor_index(size, b, dir)),
{
    let path = choose|path: Seq<int>| #[trigger]
        is_path(field, size, path) && path[0] == a && path[path.len() - 1] == b;
    let c = neighbor_index(size, b, dir);
    let longer = path.push(c);
    assert forall|k: int| 0 <= k < longer.len() - 1 implies adjacent(
        size,
        #[trigger] longer[k],
        longer[k + 1],
    ) by {
        if k < path.len() - 1 {
            assert(adjacent(size, path[k], path[k + 1]));
        } else {
            assert(neighbor_index(size, longer[k], dir) == longer[k + 1]);
        }
    }
    assert(is_path(field, size, longer));
    assert(longer[0] == a && longer[longer.len() - 1] == c);
}

/// Stepping back from a neighbour leads to where the step began.
pub proof fn lemma_neighbor_back(size: int, a: int, dir: int)
    requires
        0 < size,
        0 <= a < volume(size),
        0 <= dir < 6,
        neighbor_index(size, a, dir) >= 0,
    ensures
        0 <= neighbor_index(size, a, dir) < volume(size),
        neighbor_index(size, neighbor_index(size, a, dir), opposite(dir)) == a,
{
    lemma_linear_index_of_coords(size, a);
    let x = index_x(size, a) + dir_dx(dir);
    let y = index_y(size, a) + dir_dy(dir);
    let z = index_z(size, a) + dir_dz(dir);
    lemma_linear_index_in_range(size, x, y, z);
    lemma_coords_of_linear_index(size, x, y, z);
}

/// The direction that undoes `dir`.
pub open spec fn opposite(dir: int) -> int {
    if dir % 2 == 0 {
        dir + 1
    } else {
        dir - 1
    }
}

/// Sharing a face is mutual.
pub proof fn lemma_adjacent_symmetric(size: int, a: int, b: int)
    requires
        0 < size,
        0 <= a < volume(size),
        0 <= b,
        adjacent(size, a, b),
    ensures
        adjacent(size, b, a),
{
    let dir = choose|dir: int| 0 <= dir < 6 && #[trigger] neighbor_index(size, a, dir) == b;
    lemma_neighbor_back(size, a, dir);
    assert(neighbor_index(size, b, opposite(dir)) == a);
}

/// Being connected is mutual.
pub proof fn lemma_connected_symmetric(field: Seq<Voxel>, size: int, a: int, b: int)
    requires
        0 < size,
        field.len() == volume(size),
        connected(field, size, a, b),
    ensures
        connected(field, size, b, a),
{
    let path = choose|path: Seq<int>| #[trigger]
        is_path(field, size, path) && path[0] == a && path[path.len() - 1] == b;
    let back = path.reverse();
    assert forall|k: int| 0 <= k < back.len() - 1 implies adjacent(
        size,
        #[trigger] back[k],
        back[k + 1],
    ) by {
        let j = path.len() - 2 - k;
        assert(back[k] == path[j + 1]);
        assert(back[k + 1] == path[j]);
        assert(adjacent(size, path[j], path[j + 1]));
        assert(0 <= path[j] < field.len());
        assert(0 <= path[j + 1] < field.len());
        lemma_adjacent_symmetric(size, path[j], path[j + 1]);
    }
    assert forall|k: int| 0 <= k < back.len() implies 0 <= #[trigger] back[k] < field.len()
        && field[back[k]].is_active() by {
        assert(back[k] == path[path.len() - 1 - k]);
    }
    assert(is_path(field, size, back));
    assert(back[0] == b && back[back.len() - 1] == a);
}

/// Connections chain.
pub proof fn lemma_connected_transitive(field: Seq<Voxel>, size: int, a: int, b: int, c: int)
    requires
        connected(field, size, a, b),
        connected(field, size, b, c),
    ensures
        connected(field, size, a, c),
{
    let first = choose|path: Seq<int>| #[trigger]
        is_path(field, size, path) && path[0] == a && path[path.len() - 1] == b;
    let second = choose|path: Seq<int>| #[trigger]
        is_path(field, size, path) && path[0] == b && path[path.len() - 1] == c;
    let joined = first + second.subrange(1, second.len() as int);
    assert forall|k: int| 0 <= k < joined.len() implies 0 <= #[trigger] joined[k] < field.len()
        && field[joined[k]].is_active() by {
        if k < first.len() {
            assert(joined[k] == first[k]);
        } else {
            assert(joined[k] == second[k - first.len() + 1]);
        }
    }
    assert forall|k: int| 0 <= k < joined.len() - 1 implies adjacent(
        size,
        #[trigger] joined[k],
        joined[k + 1],
    ) by {
        if k < first.len() - 1 {
            assert(joined[k] == first[k] && joined[k + 1] == first[k + 1]);
            assert(adjacent(size, first[k], first[k + 1]));
        } else {
            let j = k - first.len() + 1;
            assert(joined[k + 1] == second[j + 1]);
            assert(joined[k] == second[j]) by {
                if k == first.len() - 1 {
                    assert(joined[k] == first[k]);
                } else {
                    assert(joined[k] == second[k - first.len() + 1]);
                }
            }
            assert(adjacent(size, second[j], second[j + 1]));
        }
    }
    assert(is_path(field, size, joined));
    assert(joined[0] == a);
    assert(joined[joined.len() - 1] == c) by {
        if second.len() == 1 {
            assert(joined =~= first);
        } else {
            assert(joined[joined.len() - 1] == second[second.len() - 1]);
        }
    }
}

/// A set of voxels that holds `start` and, with each of its voxels, every
/// active neighbour of it, holds every voxel connected to `start`.
pub proof fn lemma_closed_set_holds_component(
    field: Seq<Voxel>,
    size: int,
    start: int,
    inside: Seq<bool>,
    target: int,
)
    requires
        inside.len() == field.len(),
        0 <= start < field.len(),
        inside[start],
        forall|j: int, dir: int|
            0 <= j < field.len() && inside[j] && 0 <= dir < 6 && 0 <= #[trigger] neighbor_index(
                size,
                j,
                dir,
            ) < field.len() && field[neighbor_index(size, j, dir)].is_active() ==> inside[neighbor_index(
                size,
                j,
                dir,
            )],
        connected(field, size, start, target),
    ensures
        0 <= target < field.len(),
        inside[target],
{
    let path = choose|path: Seq<int>| #[trigger]
        is_path(field, size, path) && path[0] == start && path[path.len() - 1] == target;
    lemma_path_stays_inside(field, size, inside, path, path.len() - 1);
}

proof fn lemma_path_stays_inside(
    field: Seq<Voxel>,
    size: int,
    inside: Seq<bool>,
    path: Seq<int>,
    k: int,
)
    requires
        inside.len() == field.len(),
        is_path(field, size, path),
        inside[path[0]],
        forall|j: int, dir: int|
            0 <= j < field.len() && inside[j] && 0 <= dir < 6 && 0 <= #[trigger] neighbor_index(
                size,
                j,
                dir,
            ) < field.len() && field[neighbor_index(size, j, dir)].is_active() ==> inside[neighbor_index(
                size,
                j,
                dir,
            )],
        0 <= k < path.len(),
    ensures
        0 <= path[k] < field.len(),
        inside[path[k]],
    decreases k,
{
    if k > 0 {
        lemma_path_stays_inside(field, size, inside, path, k - 1);
        assert(adjacent(size, path[k - 1], path[k - 1 + 1]));
        let dir = choose|dir: int|
            0 <= dir < 6 && #[trigger] neighbor_index(size, path[k - 1], dir) == path[k];
        assert(0 <= path[k] < field.len() && field[path[k]].is_active());
    } else {
        assert(0 <= path[0] < field.len());
    }
}

/// Raising one flag makes one `true` entry more.
pub proof fn lemma_count_true_raise(flags: Seq<bool>, i: int)
    requires
        0 <= i < flags.len(),
        !flags[i],
    ensures
        count_true(flags.update(i, true)) == count_true(flags) + 1,
    decreases flags.len(),
{
    let raised = flags.update(i, true);
    if i == flags.len() - 1 {
        assert(raised.drop_last() =~= flags.drop_last());
    } else {
        lemma_count_true_raise(flags.drop_last(), i);
        assert(raised.drop_last() =~= flags.drop_last().update(i, true));
    }
}

/// No more entries are `true` than there are entries.
pub proof fn lemma_count_true_bound(flags: Seq<bool>)
    ensures
        count_true(flags) <= flags.len(),
    decreases flags.len(),
{
    if flags.len() > 0 {
        lemma_count_true_bound(flags.drop_last());
    }
}

/// Without a `true` entry the count is zero.
pub proof fn lemma_count_true_none(flags: Seq<bool>)
    requires
        forall|i: int| 0 <= i < flags.len() ==> !flags[i],
    ensures
        count_true(flags) == 0,
    decreases flags.len(),
{
    if flags.len() > 0 {
        lemma_count_true_none(flags.drop_last());
    }
}

/// Number of `false` entries.
pub open spec fn count_false(flags: Seq<bool>) -> nat
    decreases flags.len(),
{
    if flags.len() == 0 {
        0
    } else {
        count_false(flags.drop_last()) + if flags.last() {
            0nat
        } else {
            1nat
        }
    }
}

/// Raising one flag leaves one `false` entry less.
pub proof fn lemma_count_false_raise(flags: Seq<bool>, i: int)
    requires
        0 <= i < flags.len(),
        !flags[i],
    ensures
        count_false(flags.update(i, true)) + 1 == count_false(flags),
    decreases flags.len(),
{
    let raised = flags.update(i, true);
    if i == flags.len() - 1 {
        assert(raised.drop_last() =~= flags.drop_last());
    } else {
        lemma_count_false_raise(flags.drop_last(), i);
        assert(raised.drop_last() =~= flags.drop_last().update(i, true));
    }
}

/// No more entries are `false` than there are entries.
pub proof fn lemma_count_false_bound(flags: Seq<bool>)
    ensures
        count_false(flags) <= flags.len(),
    decreases flags.len(),
{
    if flags.len() > 0 {
        lemma_count_false_bound(flags.drop_last());
    }
}

/// Raising the flags of a set that had none raised leaves as many `false`
/// entries less as the set has members.
pub proof fn lemma_count_false_union(before: Seq<bool>, added: Seq<bool>, after: Seq<bool>)
    requires
        before.len() == added.len(),
        after.len() == added.len(),
        forall|j: int| 0 <= j < before.len() ==> !(before[j] && added[j]),
        forall|j: int| 0 <= j < before.len() ==> after[j] == (before[j] || added[j]),
    ensures
        count_false(after) + count_true(added) == count_false(before),
    decreases before.len(),
{
    if before.len() > 0 {
        lemma_count_false_union(before.drop_last(), added.drop_last(), after.drop_last());
    }
}

/// A single `true` entry counts as one.
pub proof fn lemma_count_true_single(flags: Seq<bool>, i: int)
    requires
        0 <= i < flags.len(),
        forall|j: int| 0 <= j < flags.len() ==> flags[j] == (j == i),
    ensures
        count_true(flags) == 1,
{
    let none = flags.update(i, false);
    lemma_count_true_none(none);
    lemma_count_true_raise(none, i);
    assert(none.update(i, true) =~= flags);
}

/// An active voxel without an active neighbour across any of its six faces
/// is a component of its own: it is connected to no other voxel, so it
/// counts as noise and makes no region.
pub proof fn lemma_isolated_voxel_is_alone(field: Seq<Voxel>, size: int, index: int)
    requires
        0 <= index < field.len(),
        field[index].is_active(),
        forall|dir: int|
            0 <= dir < 6 && 0 <= #[trigger] neighbor_index(size, index, dir) < field.len()
                ==> !field[neighbor_index(size, index, dir)].is_active(),
    ensures
        forall|other: int| connected(field, size, index, other) ==> other == index,
        component_size(field, size, index) == 1,
{
    assert forall|other: int| connected(field, size, index, other) implies other == index by {
        let path = choose|path: Seq<int>| #[trigger]
            is_path(field, size, path) && path[0] == index && path[path.len() - 1] == other;
        if path.len() > 1 {
            assert(adjacent(size, path[0int], path[0int + 1]));
            let dir = choose|dir: int|
                0 <= dir < 6 && #[trigger] neighbor_index(size, path[0], dir) == path[1];
            assert(0 <= path[1] < field.len() && field[path[1]].is_active());
        }
    }
    lemma_connected_self(field, size, index);
    lemma_count_true_single(component(field, size, index), index);
}

} // verus!
