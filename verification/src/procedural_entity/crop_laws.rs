use vstd::prelude::*;
use crate::common::coords::Coords;
use crate::common::indexing::{
    in_bounds,
    index_x,
    index_y,
    index_z,
    lemma_coords_of_linear_index,
    lemma_linear_index_in_range,
    lemma_linear_index_of_coords,
    linear_index,
    volume,
};
use crate::common::voxels::Voxel;
use crate::procedural_entity::bounds::{
    active_hi,
    active_lo,
    axis_coord,
    axis_max,
    axis_min,
    has_active,
    is_axis_max,
    is_axis_min,
    lemma_axis_max_unique,
    lemma_axis_min_unique,
};
use crate::procedural_entity::resize::{
    cropped_field,
    cropped_size,
    padded_size,
    rebuilt_field,
};
use crate::procedural_entity::voxel_at;

verus! {

/// Among the first `upto` voxels, if any is active, one has the least
/// coordinate along `axis` and one the greatest.
proof fn lemma_extremes_of_prefix(field: Seq<Voxel>, size: int, axis: int, upto: int) -> (r: (
    int,
    int,
))
    requires
        0 <= upto <= field.len(),
        exists|i: int| 0 <= i < upto && (#[trigger] field[i]).is_active(),
    ensures
        0 <= r.0 < upto && field[r.0].is_active(),
        0 <= r.1 < upto && field[r.1].is_active(),
        forall|i: int|
            0 <= i < upto && (#[trigger] field[i]).is_active() ==> axis_coord(size, r.0, axis)
                <= axis_coord(size, i, axis) <= axis_coord(size, r.1, axis),
    decreases upto,
{
    let last = upto - 1;
    if exists|i: int| 0 <= i < last && (#[trigger] field[i]).is_active() {
        let (lo, hi) = lemma_extremes_of_prefix(field, size, axis, last);
        if field[last].is_active() {
            let c = axis_coord(size, last, axis);
            (
                if c < axis_coord(size, lo, axis) {
                    last
                } else {
                    lo
                },
                if c > axis_coord(size, hi, axis) {
                    last
                } else {
                    hi
                },
            )
        } else {
            (lo, hi)
        }
    } else {
        (last, last)
    }
}

/// A field with an active voxel has a box around its active voxels: along
/// every axis the ends that `active_lo` and `active_hi` name are reached by
/// an active voxel and enclose all of them.
pub proof fn lemma_active_box(field: Seq<Voxel>, size: int, axis: int)
    requires
        has_active(field),
    ensures
        is_axis_min(field, size, axis, axis_min(field, size, axis)),
        is_axis_max(field, size, axis, axis_max(field, size, axis)),
{
    let (lo, hi) = lemma_extremes_of_prefix(field, size, axis, field.len() as int);
    assert(is_axis_min(field, size, axis, axis_coord(size, lo, axis)));
    assert(is_axis_max(field, size, axis, axis_coord(size, hi, axis)));
    lemma_axis_min_unique(field, size, axis, axis_coord(size, lo, axis));
    lemma_axis_max_unique(field, size, axis, axis_coord(size, hi, axis));
}

/// The box around the active voxels lies inside the field.
pub proof fn lemma_active_box_in_field(field: Seq<Voxel>, size: int)
    requires
        0 < size,
        field.len() == volume(size),
    ensures
        0 <= active_lo(field, size).x <= active_hi(field, size).x < size,
        0 <= active_lo(field, size).y <= active_hi(field, size).y < size,
        0 <= active_lo(field, size).z <= active_hi(field, size).z < size,
{
    if has_active(field) {
        lemma_active_box(field, size, 0);
        lemma_active_box(field, size, 1);
        lemma_active_box(field, size, 2);
        let w0 = choose|i: int|
            0 <= i < field.len() && (#[trigger] field[i]).is_active() && axis_coord(size, i, 0)
                == axis_min(field, size, 0);
        lemma_linear_index_of_coords(size, w0);
        let w1 = choose|i: int|
            0 <= i < field.len() && (#[trigger] field[i]).is_active() && axis_coord(size, i, 1)
                == axis_min(field, size, 1);
        lemma_linear_index_of_coords(size, w1);
        let w2 = choose|i: int|
            0 <= i < field.len() && (#[trigger] field[i]).is_active() && axis_coord(size, i, 2)
                == axis_min(field, size, 2);
        lemma_linear_index_of_coords(size, w2);
        let v0 = choose|i: int|
            0 <= i < field.len() && (#[trigger] field[i]).is_active() && axis_coord(size, i, 0)
                == axis_max(field, size, 0);
        lemma_linear_index_of_coords(size, v0);
        let v1 = choose|i: int|
            0 <= i < field.len() && (#[trigger] field[i]).is_active() && axis_coord(size, i, 1)
                == axis_max(field, size, 1);
        lemma_linear_index_of_coords(size, v1);
        let v2 = choose|i: int|
            0 <= i < field.len() && (#[trigger] field[i]).is_active() && axis_coord(size, i, 2)
                == axis_max(field, size, 2);
        lemma_linear_index_of_coords(size, v2);
    }
}

/// In a field rebuilt around the box of its active voxels, a voxel is active
/// exactly when it comes from an active voxel of the old field.
proof fn lemma_rebuilt_voxel(field: Seq<Voxel>, size: int, lo: Coords<int>, n: int, i: int)
    requires
        0 < size,
        0 < n,
        field.len() == volume(size),
        0 <= i < volume(n),
    ensures
        rebuilt_field(field, size, lo, n)[i] == voxel_at(
            field,
            size,
            lo.x + index_x(n, i) - 1,
            lo.y + index_y(n, i) - 1,
            lo.z + index_z(n, i) - 1,
        ),
        rebuilt_field(field, size, lo, n)[i].is_active() ==> {
            &&& in_bounds(
                size,
                lo.x + index_x(n, i) - 1,
                lo.y + index_y(n, i) - 1,
                lo.z + index_z(n, i) - 1,
            )
            &&& 0 <= linear_index(
                size,
                lo.x + index_x(n, i) - 1,
                lo.y + index_y(n, i) - 1,
                lo.z + index_z(n, i) - 1,
            ) < field.len()
            &&& field[linear_index(
                size,
                lo.x + index_x(n, i) - 1,
                lo.y + index_y(n, i) - 1,
                lo.z + index_z(n, i) - 1,
            )].is_active()
        },
{
    let x = lo.x + index_x(n, i) - 1;
    let y = lo.y + index_y(n, i) - 1;
    let z = lo.z + index_z(n, i) - 1;
    if in_bounds(size, x, y, z) {
        lemma_linear_index_in_range(size, x, y, z);
    }
}

/// The active voxel stored at `w` in the old field is found again, active,
/// in the field rebuilt around the box of the active voxels, one step away
/// from the lower faces for every step it was away from the box's lower end.
proof fn lemma_rebuilt_keeps(field: Seq<Voxel>, size: int, w: int) -> (i: int)
    requires
        0 < size,
        field.len() == volume(size),
        0 <= w < field.len(),
        field[w].is_active(),
        padded_size(active_lo(field, size), active_hi(field, size)) < size,
    ensures
        0 <= i < volume(padded_size(active_lo(field, size), active_hi(field, size))),
        rebuilt_field(
            field,
            size,
            active_lo(field, size),
            padded_size(active_lo(field, size), active_hi(field, size)),
        )[i] == field[w],
        index_x(padded_size(active_lo(field, size), active_hi(field, size)), i) == index_x(size, w)
            - active_lo(field, size).x + 1,
        index_y(padded_size(active_lo(field, size), active_hi(field, size)), i) == index_y(size, w)
            - active_lo(field, size).y + 1,
        index_z(padded_size(active_lo(field, size), active_hi(field, size)), i) == index_z(size, w)
            - active_lo(field, size).z + 1,
{
    let lo = active_lo(field, size);
    let hi = active_hi(field, size);
    let n = padded_size(lo, hi);
    lemma_active_box(field, size, 0);
    lemma_active_box(field, size, 1);
    lemma_active_box(field, size, 2);
    lemma_linear_index_of_coords(size, w);
    assert(lo.x <= axis_coord(size, w, 0) <= hi.x);
    assert(lo.y <= axis_coord(size, w, 1) <= hi.y);
    assert(lo.z <= axis_coord(size, w, 2) <= hi.z);
    let x = index_x(size, w) - lo.x + 1;
    let y = index_y(size, w) - lo.y + 1;
    let z = index_z(size, w) - lo.z + 1;
    assert(in_bounds(n, x, y, z));
    lemma_linear_index_in_range(n, x, y, z);
    lemma_coords_of_linear_index(n, x, y, z);
    let i = linear_index(n, x, y, z);
    lemma_rebuilt_voxel(field, size, lo, n, i);
    i
}

/// Cropping a field that was just cropped changes nothing: neither its size
/// nor any of its voxels.
pub proof fn lemma_crop_idempotent(field: Seq<Voxel>, size: int)
    requires
        0 < size,
        field.len() == volume(size),
    ensures
        cropped_size(cropped_field(field, size), cropped_size(field, size)) == cropped_size(
            field,
            size,
        ),
        cropped_field(cropped_field(field, size), cropped_size(field, size)) == cropped_field(
            field,
            size,
        ),
{
    let lo = active_lo(field, size);
    let hi = active_hi(field, size);
    let n = padded_size(lo, hi);
    if n < size {
        lemma_active_box_in_field(field, size);
        assert(has_active(field));
        let cropped = rebuilt_field(field, size, lo, n);
        assert(cropped == cropped_field(field, size));
        lemma_active_box(field, size, 0);
        lemma_active_box(field, size, 1);
        lemma_active_box(field, size, 2);
        let w0 = choose|i: int|
            0 <= i < field.len() && (#[trigger] field[i]).is_active() && axis_coord(size, i, 0)
                == lo.x;
        let w1 = choose|i: int|
            0 <= i < field.len() && (#[trigger] field[i]).is_active() && axis_coord(size, i, 1)
                == lo.y;
        let w2 = choose|i: int|
            0 <= i < field.len() && (#[trigger] field[i]).is_active() && axis_coord(size, i, 2)
                == lo.z;
        let v0 = choose|i: int|
            0 <= i < field.len() && (#[trigger] field[i]).is_active() && axis_coord(size, i, 0)
                == hi.x;
        let v1 = choose|i: int|
            0 <= i < field.len() && (#[trigger] field[i]).is_active() && axis_coord(size, i, 1)
                == hi.y;
        let v2 = choose|i: int|
            0 <= i < field.len() && (#[trigger] field[i]).is_active() && axis_coord(size, i, 2)
                == hi.z;
        let a0 = lemma_rebuilt_keeps(field, size, w0);
        let a1 = lemma_rebuilt_keeps(field, size, w1);
        let a2 = lemma_rebuilt_keeps(field, size, w2);
        let b0 = lemma_rebuilt_keeps(field, size, v0);
        let b1 = lemma_rebuilt_keeps(field, size, v1);
        let b2 = lemma_rebuilt_keeps(field, size, v2);
        assert forall|i: int| 0 <= i < cropped.len() && (#[trigger] cropped[i]).is_active() implies {
            &&& 1 <= index_x(n, i) <= hi.x - lo.x + 1
            &&& 1 <= index_y(n, i) <= hi.y - lo.y + 1
            &&& 1 <= index_z(n, i) <= hi.z - lo.z + 1
        } by {
            lemma_rebuilt_voxel(field, size, lo, n, i);
            let x = lo.x + index_x(n, i) - 1;
            let y = lo.y + index_y(n, i) - 1;
            let z = lo.z + index_z(n, i) - 1;
            let source = linear_index(size, x, y, z);
            lemma_coords_of_linear_index(size, x, y, z);
            assert(field[source].is_active());
            assert(lo.x <= axis_coord(size, source, 0) <= hi.x);
            assert(lo.y <= axis_coord(size, source, 1) <= hi.y);
            assert(lo.z <= axis_coord(size, source, 2) <= hi.z);
        }
        assert(is_axis_min(cropped, n, 0, 1)) by {
            assert(cropped[a0].is_active() && axis_coord(n, a0, 0) == 1);
        }
        assert(is_axis_min(cropped, n, 1, 1)) by {
            assert(cropped[a1].is_active() && axis_coord(n, a1, 1) == 1);
        }
        assert(is_axis_min(cropped, n, 2, 1)) by {
            assert(cropped[a2].is_active() && axis_coord(n, a2, 2) == 1);
        }
        assert(is_axis_max(cropped, n, 0, hi.x - lo.x + 1)) by {
            assert(cropped[b0].is_active() && axis_coord(n, b0, 0) == hi.x - lo.x + 1);
        }
        assert(is_axis_max(cropped, n, 1, hi.y - lo.y + 1)) by {
            assert(cropped[b1].is_active() && axis_coord(n, b1, 1) == hi.y - lo.y + 1);
        }
        assert(is_axis_max(cropped, n, 2, hi.z - lo.z + 1)) by {
            assert(cropped[b2].is_active() && axis_coord(n, b2, 2) == hi.z - lo.z + 1);
        }
        lemma_axis_min_unique(cropped, n, 0, 1);
        lemma_axis_min_unique(cropped, n, 1, 1);
        lemma_axis_min_unique(cropped, n, 2, 1);
        lemma_axis_max_unique(cropped, n, 0, hi.x - lo.x + 1);
        lemma_axis_max_unique(cropped, n, 1, hi.y - lo.y + 1);
        lemma_axis_max_unique(cropped, n, 2, hi.z - lo.z + 1);
        assert(padded_size(active_lo(cropped, n), active_hi(cropped, n)) == n);
    }
}

/// Cropping keeps every active voxel: each one is found again, with its
/// density and material, at the place that the shift of the box gives it.
pub proof fn lemma_crop_keeps_active(field: Seq<Voxel>, size: int, x: int, y: int, z: int)
    requires
        0 < size,
        field.len() == volume(size),
        in_bounds(size, x, y, z),
        voxel_at(field, size, x, y, z).is_active(),
        cropped_size(field, size) < size,
    ensures
        voxel_at(
            cropped_field(field, size),
            cropped_size(field, size),
            x - active_lo(field, size).x + 1,
            y - active_lo(field, size).y + 1,
            z - active_lo(field, size).z + 1,
        ) == voxel_at(field, size, x, y, z),
        in_bounds(
            cropped_size(field, size),
            x - active_lo(field, size).x + 1,
            y - active_lo(field, size).y + 1,
            z - active_lo(field, size).z + 1,
        ),
{
    let w = linear_index(size, x, y, z);
    lemma_linear_index_in_range(size, x, y, z);
    lemma_coords_of_linear_index(size, x, y, z);
    lemma_active_box_in_field(field, size);
    let i = lemma_rebuilt_keeps(field, size, w);
    let n = cropped_size(field, size);
    lemma_linear_index_of_coords(n, i);
}

} // verus!
