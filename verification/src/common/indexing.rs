use vstd::prelude::*;
use vstd::arithmetic::div_mod::{
    lemma_fundamental_div_mod,
    lemma_fundamental_div_mod_converse,
    lemma_mod_bound,
};
use crate::common::coords::{Coords, VoxelCoords};
use crate::common::constants::MAX_FIELD_SIZE;

verus! {

/// Number of cells of a cubic field with `size` cells along each axis.
pub open spec fn volume(size: int) -> int {
    size * size * size
}

/// Whether `(x, y, z)` names a cell of a field with edge length `size`.
pub open spec fn in_bounds(size: int, x: int, y: int, z: int) -> bool {
    0 <= x < size && 0 <= y < size && 0 <= z < size
}

/// Position of the cell `(x, y, z)` in the flat, x-major storage.
pub open spec fn linear_index(size: int, x: int, y: int, z: int) -> int {
    z + y * size + x * size * size
}

/// The x coordinate of the cell stored at `index`.
pub open spec fn index_x(size: int, index: int) -> int {
    index / (size * size)
}

/// The y coordinate of the cell stored at `index`.
pub open spec fn index_y(size: int, index: int) -> int {
    (index / size) % size
}

/// The z coordinate of the cell stored at `index`.
pub open spec fn index_z(size: int, index: int) -> int {
    index % size
}

/// The coordinates of the cell stored at `index`, as a triple of integers.
pub open spec fn index_coords(size: int, index: int) -> Coords<int> {
    Coords { x: index_x(size, index), y: index_y(size, index), z: index_z(size, index) }
}

/// Any edge length up to the maximum has a volume that fits every `usize`.
pub proof fn lemma_volume_bound(size: int)
    requires
        0 <= size <= MAX_FIELD_SIZE,
    ensures
        0 <= size * size <= 65536,
        0 <= volume(size) <= 16777216,
        volume(size) == size * (size * size),
{
    assert(0 <= size * size <= 65536) by (nonlinear_arith)
        requires
            0 <= size <= 256,
    ;
    assert(0 <= size * size * size <= 16777216) by (nonlinear_arith)
        requires
            0 <= size <= 256,
    ;
    assert(size * size * size == size * (size * size)) by (nonlinear_arith);
}

/// A cell inside the field is stored inside the flat storage.
pub proof fn lemma_linear_index_in_range(size: int, x: int, y: int, z: int)
    requires
        in_bounds(size, x, y, z),
    ensures
        0 <= linear_index(size, x, y, z) < volume(size),
{
    assert(0 <= z + y * size + x * size * size < size * size * size) by (nonlinear_arith)
        requires
            0 <= x < size,
            0 <= y < size,
            0 <= z < size,
    ;
}

/// Reading the coordinates back from the index of a cell gives the cell.
pub proof fn lemma_coords_of_linear_index(size: int, x: int, y: int, z: int)
    requires
        in_bounds(size, x, y, z),
    ensures
        index_x(size, linear_index(size, x, y, z)) == x,
        index_y(size, linear_index(size, x, y, z)) == y,
        index_z(size, linear_index(size, x, y, z)) == z,
{
    let index = linear_index(size, x, y, z);
    let plane = size * size;
    assert(0 <= z + y * size < size * size) by (nonlinear_arith)
        requires
            0 <= y < size,
            0 <= z < size,
    ;
    assert(x * size * size == x * (size * size)) by (nonlinear_arith);
    lemma_fundamental_div_mod_converse(index, plane, x, z + y * size);
    assert(index == (y + x * size) * size + z) by (nonlinear_arith)
        requires
            index == z + y * size + x * size * size,
    ;
    lemma_fundamental_div_mod_converse(index, size, y + x * size, z);
    assert(y + x * size == x * size + y);
    lemma_fundamental_div_mod_converse(y + x * size, size, x, y);
}

/// Every index of the storage names a cell inside the field, and that cell
/// is stored at the index.
pub proof fn lemma_linear_index_of_coords(size: int, index: int)
    requires
        0 < size,
        0 <= index < volume(size),
    ensures
        in_bounds(size, index_x(size, index), index_y(size, index), index_z(size, index)),
        linear_index(size, index_x(size, index), index_y(size, index), index_z(size, index))
            == index,
{
    let plane = size * size;
    assert(plane > 0) by (nonlinear_arith)
        requires
            size > 0,
            plane == size * size,
    ;
    let x = index / plane;
    let rest = index % plane;
    lemma_fundamental_div_mod(index, plane);
    lemma_mod_bound(index, plane);
    assert(0 <= x < size) by (nonlinear_arith)
        requires
            index == plane * x + rest,
            0 <= rest < plane,
            0 <= index < size * size * size,
            plane == size * size,
            size > 0,
    ;
    let row = index / size;
    let z = index % size;
    lemma_fundamental_div_mod(index, size);
    lemma_mod_bound(index, size);
    let y = row % size;
    let q = row / size;
    lemma_fundamental_div_mod(row, size);
    lemma_mod_bound(row, size);
    assert(index == (size * size) * q + (z + y * size)) by (nonlinear_arith)
        requires
            index == size * row + z,
            row == size * q + y,
    ;
    assert(0 <= z + y * size < size * size) by (nonlinear_arith)
        requires
            0 <= y < size,
            0 <= z < size,
    ;
    assert(plane * q == q * plane) by (nonlinear_arith);
    lemma_fundamental_div_mod_converse(index, plane, q, z + y * size);
    assert(q == x);
    assert(z + y * size + x * size * size == index) by (nonlinear_arith)
        requires
            index == (size * size) * x + (z + y * size),
    ;
}

/// Two cells inside the field that are stored at the same index are the same
/// cell.
pub proof fn lemma_linear_index_injective(
    size: int,
    x1: int,
    y1: int,
    z1: int,
    x2: int,
    y2: int,
    z2: int,
)
    requires
        in_bounds(size, x1, y1, z1),
        in_bounds(size, x2, y2, z2),
        linear_index(size, x1, y1, z1) == linear_index(size, x2, y2, z2),
    ensures
        x1 == x2 && y1 == y2 && z1 == z2,
{
    lemma_coords_of_linear_index(size, x1, y1, z1);
    lemma_coords_of_linear_index(size, x2, y2, z2);
}

/// The index of the cell `pos` in a field of edge length `size`, or `None`
/// when `pos` lies outside the field.
pub fn linearize(size: usize, pos: VoxelCoords) -> (r: Option<usize>)
    requires
        size <= MAX_FIELD_SIZE,
    ensures
        r.is_some() == in_bounds(size as int, pos.x as int, pos.y as int, pos.z as int),
        r.is_some() ==> r.unwrap() == linear_index(
            size as int,
            pos.x as int,
            pos.y as int,
            pos.z as int,
        ),
        r.is_some() ==> r.unwrap() < volume(size as int),
{
    if (pos.x as usize) < size && (pos.y as usize) < size && (pos.z as usize) < size {
        proof {
            lemma_linear_index_in_range(size as int, pos.x as int, pos.y as int, pos.z as int);
            lemma_volume_bound(size as int);
            assert(pos.y * size <= 65536) by (nonlinear_arith)
                requires
                    0 <= pos.y < size <= 256,
            ;
            assert(0 <= pos.x * size <= 65536 && pos.x * size * size <= 16777216)
                by (nonlinear_arith)
                requires
                    0 <= pos.x < size <= 256,
            ;
        }
        Some(pos.z as usize + pos.y as usize * size + pos.x as usize * size * size)
    } else {
        None
    }
}

/// The cell stored at `index` in a field of edge length `size`.
pub fn delinearize(size: usize, index: usize) -> (pos: VoxelCoords)
    requires
        0 < size <= MAX_FIELD_SIZE,
        index < volume(size as int),
    ensures
        pos.x as int == index_x(size as int, index as int),
        pos.y as int == index_y(size as int, index as int),
        pos.z as int == index_z(size as int, index as int),
        in_bounds(size as int, pos.x as int, pos.y as int, pos.z as int),
        linear_index(size as int, pos.x as int, pos.y as int, pos.z as int) == index,
{
    proof {
        lemma_linear_index_of_coords(size as int, index as int);
        lemma_volume_bound(size as int);
        assert(size * size > 0) by (nonlinear_arith)
            requires
                size > 0,
        ;
    }
    let z: usize = index % size;
    let y: usize = (index / size) % size;
    let x: usize = index / (size * size);
    Coords { x: x as u8, y: y as u8, z: z as u8 }
}

} // verus!
