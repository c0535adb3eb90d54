use vstd::prelude::*;
use crate::common::constants::{HALF, MAX_FIELD_SIZE, SCALE};
use crate::common::coords::{
    cross_product,
    lemma_product_bound,
    Coords,
    Fixed,
    VoxelCoords,
    WorldCoords,
    CROSS_LIMIT,
};
use crate::common::indexing::{
    delinearize,
    index_x,
    index_y,
    index_z,
    lemma_linear_index_in_range,
    lemma_volume_bound,
    linear_index,
    volume,
};
use crate::common::math::{div_toward_zero, integer_sqrt, is_integer_sqrt, isqrt, trunc_div};
use crate::common::vertex::Vertex;
use crate::common::voxel_material::VoxelMaterial;
use crate::common::voxels::Voxel;
use crate::marching_cubes::table_laws::lemma_table_is_sound;
use crate::marching_cubes::table::{
    block_corners,
    case_index,
    case_row,
    edge_corner_a,
    edge_corner_b,
    entry_is_sound,
    get_index_by_voxels,
    lemma_case_index_bits,
    row_names,
    table_entry,
    triangle_count,
    VoxelsBlock,
};

pub mod table;
pub mod table_laws;

verus! {

/// One of the twelve edges of a cell: its number and the reference position
/// of its midpoint inside the unit cell.
#[derive(Clone, Copy)]
pub struct VertexNode {
    pub index: usize,
    pub pos: WorldCoords,
}

/// Number of edges of a cell.
pub const NODES_POS_COUNT: usize = 12;

/// For each edge of a cell, where the surface crosses it: the fraction of
/// the way from the edge's lower end to its upper end, in thousandths.
pub type Nodes = [Voxel; 12];

/// Reference position of the midpoint of the edge `edge`, in thousandths of
/// the unit cell. The edges are, from 0 to 11: down-north, down-east,
/// down-south, down-west, up-north, up-east, up-south, up-west, and the
/// vertical edges north-west, north-east, south-east, south-west; north is
/// `z = 1`, east is `x = 1`, up is `y = 1`.
pub open spec fn node_position(edge: int) -> Coords<int> {
    if edge == 0 {
        Coords { x: 500, y: 0, z: 1000 }
    } else if edge == 1 {
        Coords { x: 1000, y: 0, z: 500 }
    } else if edge == 2 {
        Coords { x: 500, y: 0, z: 0 }
    } else if edge == 3 {
        Coords { x: 0, y: 0, z: 500 }
    } else if edge == 4 {
        Coords { x: 500, y: 1000, z: 1000 }
    } else if edge == 5 {
        Coords { x: 1000, y: 1000, z: 500 }
    } else if edge == 6 {
        Coords { x: 500, y: 1000, z: 0 }
    } else if edge == 7 {
        Coords { x: 0, y: 1000, z: 500 }
    } else if edge == 8 {
        Coords { x: 0, y: 500, z: 1000 }
    } else if edge == 9 {
        Coords { x: 1000, y: 500, z: 1000 }
    } else if edge == 10 {
        Coords { x: 1000, y: 500, z: 0 }
    } else {
        Coords { x: 0, y: 500, z: 0 }
    }
}

/// The node of the edge `edge`.
pub open spec fn base_node(edge: int) -> VertexNode {
    VertexNode {
        index: edge as usize,
        pos: Coords {
            x: Fixed(node_position(edge).x as i64),
            y: Fixed(node_position(edge).y as i64),
            z: Fixed(node_position(edge).z as i64),
        },
    }
}

/// The node of the down-north edge.
pub fn get_node_dn() -> (node: VertexNode)
    ensures
        node == base_node(0),
{
    VertexNode { index: 0, pos: WorldCoords::new(500, 0, 1000) }
}

/// The node of the down-east edge.
pub fn get_node_de() -> (node: VertexNode)
    ensures
        node == base_node(1),
{
    VertexNode { index: 1, pos: WorldCoords::new(1000, 0, 500) }
}

/// The node of the down-south edge.
pub fn get_node_ds() -> (node: VertexNode)
    ensures
        node == base_node(2),
{
    VertexNode { index: 2, pos: WorldCoords::new(500, 0, 0) }
}

/// The node of the down-west edge.
pub fn get_node_dw() -> (node: VertexNode)
    ensures
        node == base_node(3),
{
    VertexNode { index: 3, pos: WorldCoords::new(0, 0, 500) }
}

/// The node of the up-north edge.
pub fn get_node_un() -> (node: VertexNode)
    ensures
        node == base_node(4),
{
    VertexNode { index: 4, pos: WorldCoords::new(500, 1000, 1000) }
}

/// The node of the up-east edge.
pub fn get_node_ue() -> (node: VertexNode)
    ensures
        node == base_node(5),
{
    VertexNode { index: 5, pos: WorldCoords::new(1000, 1000, 500) }
}

/// The node of the up-south edge.
pub fn get_node_us() -> (node: VertexNode)
    ensures
        node == base_node(6),
{
    VertexNode { index: 6, pos: WorldCoords::new(500, 1000, 0) }
}

/// The node of the up-west edge.
pub fn get_node_uw() -> (node: VertexNode)
    ensures
        node == base_node(7),
{
    VertexNode { index: 7, pos: WorldCoords::new(0, 1000, 500) }
}

/// The node of the north-west vertical edge.
pub fn get_node_nw() -> (node: VertexNode)
    ensures
        node == base_node(8),
{
    VertexNode { index: 8, pos: WorldCoords::new(0, 500, 1000) }
}

/// The node of the north-east vertical edge.
pub fn get_node_ne() -> (node: VertexNode)
    ensures
        node == base_node(9),
{
    VertexNode { index: 9, pos: WorldCoords::new(1000, 500, 1000) }
}

/// The node of the south-east vertical edge.
pub fn get_node_se() -> (node: VertexNode)
    ensures
        node == base_node(10),
{
    VertexNode { index: 10, pos: WorldCoords::new(1000, 500, 0) }
}

/// The node of the south-west vertical edge.
pub fn get_node_sw() -> (node: VertexNode)
    ensures
        node == base_node(11),
{
    VertexNode { index: 11, pos: WorldCoords::new(0, 500, 0) }
}

/// The nodes of the twelve edges, each at the place of its number.
pub fn get_base_nodes() -> (nodes: [VertexNode; 12])
    ensures
        forall|edge: int| 0 <= edge < 12 ==> #[trigger] nodes[edge] == base_node(edge),
{
    [
        get_node_dn(),
        get_node_de(),
        get_node_ds(),
        get_node_dw(),
        get_node_un(),
        get_node_ue(),
        get_node_us(),
        get_node_uw(),
        get_node_nw(),
        get_node_ne(),
        get_node_se(),
        get_node_sw(),
    ]
}

/// The midpoint of an edge lies halfway between the two corners that the
/// case table takes for the edge's ends.
pub proof fn lemma_node_between_corners(edge: int)
    requires
        0 <= edge < 12,
    ensures
        2 * node_position(edge).x == SCALE * (edge_corner_a(edge) / 4 + edge_corner_b(edge) / 4),
        2 * node_position(edge).y == SCALE * ((edge_corner_a(edge) / 2) % 2 + (edge_corner_b(edge)
            / 2) % 2),
        2 * node_position(edge).z == SCALE * (edge_corner_a(edge) % 2 + edge_corner_b(edge) % 2),
{
}

/// The voxels at the eight corners of the cell whose origin is `(x, y, z)`,
/// in the order of their corner numbers `4 * dx + 2 * dy + dz`.
pub open spec fn cell_corners(field: Seq<Voxel>, size: int, x: int, y: int, z: int) -> Seq<Voxel> {
    Seq::new(
        8,
        |corner: int|
            field[linear_index(size, x + corner / 4, y + (corner / 2) % 2, z + corner % 2)],
    )
}

/// Reads the voxel at `pos` of a field of edge length `field_size`.
pub fn get_voxel_with_field_size(field: &Vec<Voxel>, pos: VoxelCoords, field_size: u32) -> (voxel:
    Voxel)
    requires
        field_size <= MAX_FIELD_SIZE,
        field.len() == volume(field_size as int),
        pos.x < field_size,
        pos.y < field_size,
        pos.z < field_size,
    ensures
        voxel == field[linear_index(field_size as int, pos.x as int, pos.y as int, pos.z as int)],
{
    proof {
        lemma_linear_index_in_range(field_size as int, pos.x as int, pos.y as int, pos.z as int);
        lemma_volume_bound(field_size as int);
        assert(pos.y * field_size <= 65536) by (nonlinear_arith)
            requires
                0 <= pos.y < field_size <= 256,
        ;
        assert(0 <= pos.x * field_size <= 65536 && pos.x * field_size * field_size <= 16777216)
            by (nonlinear_arith)
            requires
                0 <= pos.x < field_size <= 256,
        ;
    }
    let index: u32 = pos.z as u32 + pos.y as u32 * field_size + pos.x as u32 * field_size
        * field_size;
    field[index as usize]
}

/// Gathers the voxels at the eight corners of the cell whose origin is
/// `base_pos`.
pub fn get_voxels_for_vertex(field: &Vec<Voxel>, base_pos: VoxelCoords, field_size: u32) -> (voxels:
    VoxelsBlock)
    requires
        field_size <= MAX_FIELD_SIZE,
        field.len() == volume(field_size as int),
        base_pos.x + 1 < field_size,
        base_pos.y + 1 < field_size,
        base_pos.z + 1 < field_size,
    ensures
        block_corners(voxels) == cell_corners(
            field@,
            field_size as int,
            base_pos.x as int,
            base_pos.y as int,
            base_pos.z as int,
        ),
{
    let voxels: VoxelsBlock = [
        [
            [
                get_voxel_with_field_size(field, base_pos + VoxelCoords::new(0, 0, 0), field_size),
                get_voxel_with_field_size(field, base_pos + VoxelCoords::new(0, 0, 1), field_size),
            ],
            [
                get_voxel_with_field_size(field, base_pos + VoxelCoords::new(0, 1, 0), field_size),
                get_voxel_with_field_size(field, base_pos + VoxelCoords::new(0, 1, 1), field_size),
            ],
        ],
        [
            [
                get_voxel_with_field_size(field, base_pos + VoxelCoords::new(1, 0, 0), field_size),
                get_voxel_with_field_size(field, base_pos + VoxelCoords::new(1, 0, 1), field_size),
            ],
            [
                get_voxel_with_field_size(field, base_pos + VoxelCoords::new(1, 1, 0), field_size),
                get_voxel_with_field_size(field, base_pos + VoxelCoords::new(1, 1, 1), field_size),
            ],
        ],
    ];
    assert(block_corners(voxels) =~= cell_corners(
        field@,
        field_size as int,
        base_pos.x as int,
        base_pos.y as int,
        base_pos.z as int,
    ));
    voxels
}

/// Where the surface crosses an edge whose lower end has density `a` and
/// whose upper end has density `b`: the fraction of the way from the lower
/// end at which the density, taken to change evenly, passes zero; in
/// thousandths, rounded down from the empty end. Zero where both ends are
/// solid or both are empty: the surface does not cross such an edge.
pub open spec fn crossing_fraction(a: int, b: int) -> int {
    if a < 0 && b >= 0 {
        ((-a) * SCALE) / (b - a)
    } else if b < 0 && a >= 0 {
        SCALE - ((-b) * SCALE) / (a - b)
    } else {
        0
    }
}

/// A fraction `part / whole` of a thousand is at most a thousand.
proof fn lemma_fraction_bound(part: int, whole: int)
    requires
        0 <= part <= whole,
        0 < whole,
    ensures
        0 <= (part * SCALE) / whole <= SCALE,
{
    assert(0 <= (part * 1000) / whole <= 1000) by (nonlinear_arith)
        requires
            0 <= part <= whole,
            0 < whole,
    ;
}

/// A crossing lies on its edge.
pub proof fn lemma_crossing_fraction_bounds(a: int, b: int)
    ensures
        0 <= crossing_fraction(a, b) <= SCALE,
{
    if a < 0 && b >= 0 {
        lemma_fraction_bound(-a, b - a);
    } else if b < 0 && a >= 0 {
        lemma_fraction_bound(-b, a - b);
    }
}

/// Between two ends of opposite densities of the same magnitude, the surface
/// crosses the edge at its midpoint.
pub proof fn lemma_crossing_fraction_midpoint(magnitude: int)
    requires
        magnitude > 0,
    ensures
        crossing_fraction(-magnitude, magnitude) == HALF,
        crossing_fraction(magnitude, -magnitude) == HALF,
{
    assert((magnitude * 1000) / (magnitude - (-magnitude)) == 500) by (nonlinear_arith)
        requires
            magnitude > 0,
    ;
    assert((-(-magnitude)) * SCALE == magnitude * 1000);
}

/// The node of an edge from the voxels at its lower end `a` and its upper
/// end `b`: its value is the crossing fraction.
pub fn chose_voxel_for_node(a: Voxel, b: Voxel) -> (node: Voxel)
    ensures
        node.value == crossing_fraction(a.value as int, b.value as int),
        node.material == VoxelMaterial::AIR,
        0 <= node.value <= SCALE,
{
    proof {
        lemma_crossing_fraction_bounds(a.value as int, b.value as int);
    }
    if a.value < 0 && b.value >= 0 {
        let part: i64 = -(a.value as i64);
        let whole: i64 = b.value as i64 - a.value as i64;
        return Voxel { value: ((part * SCALE) / whole) as i32, material: VoxelMaterial::AIR };
    }
    if b.value < 0 && a.value >= 0 {
        let part: i64 = -(b.value as i64);
        let whole: i64 = a.value as i64 - b.value as i64;
        return Voxel {
            value: (SCALE - (part * SCALE) / whole) as i32,
            material: VoxelMaterial::AIR,
        };
    }
    Voxel { value: 0, material: VoxelMaterial::AIR }
}

/// The node of the edge `edge` of a cell with the voxels `corners` at its
/// corners.
pub open spec fn node_of_edge(corners: Seq<Voxel>, edge: int) -> Voxel {
    Voxel {
        value: crossing_fraction(
            corners[edge_corner_a(edge)].value as int,
            corners[edge_corner_b(edge)].value as int,
        ) as i32,
        material: VoxelMaterial::AIR,
    }
}

/// The nodes of the twelve edges of a cell with the voxels `corners` at its
/// corners.
pub open spec fn nodes_of_cell(corners: Seq<Voxel>) -> Seq<Voxel> {
    Seq::new(12, |edge: int| node_of_edge(corners, edge))
}

/// Computes the nodes of the twelve edges of a cell from the voxels at its
/// corners.
pub fn get_vertex_nodes(voxels: VoxelsBlock) -> (nodes: Nodes)
    ensures
        nodes@ == nodes_of_cell(block_corners(voxels)),
        forall|edge: int| 0 <= edge < 12 ==> 0 <= (#[trigger] nodes[edge]).value <= SCALE,
{
    let dn = chose_voxel_for_node(voxels[0][0][1], voxels[1][0][1]);
    let de = chose_voxel_for_node(voxels[1][0][0], voxels[1][0][1]);
    let ds = chose_voxel_for_node(voxels[0][0][0], voxels[1][0][0]);
    let dw = chose_voxel_for_node(voxels[0][0][0], voxels[0][0][1]);
    let un = chose_voxel_for_node(voxels[0][1][1], voxels[1][1][1]);
    let ue = chose_voxel_for_node(voxels[1][1][0], voxels[1][1][1]);
    let us = chose_voxel_for_node(voxels[0][1][0], voxels[1][1][0]);
    let uw = chose_voxel_for_node(voxels[0][1][0], voxels[0][1][1]);
    let nw = chose_voxel_for_node(voxels[0][0][1], voxels[0][1][1]);
    let ne = chose_voxel_for_node(voxels[1][0][1], voxels[1][1][1]);
    let se = chose_voxel_for_node(voxels[1][0][0], voxels[1][1][0]);
    let sw = chose_voxel_for_node(voxels[0][0][0], voxels[0][1][0]);
    let result: Nodes = [dn, de, ds, dw, un, ue, us, uw, nw, ne, se, sw];
    assert(result@ =~= nodes_of_cell(block_corners(voxels)));
    result
}

/// The reference position `pos` of an edge's midpoint with the fraction
/// `value` in place of the one coordinate that is one half: the point at
/// that fraction along the edge.
pub open spec fn shifted_position(pos: Coords<int>, value: int) -> Coords<int> {
    if pos.x == HALF {
        Coords { x: value, y: pos.y, z: pos.z }
    } else if pos.y == HALF {
        Coords { x: pos.x, y: value, z: pos.z }
    } else {
        Coords { x: pos.x, y: pos.y, z: value }
    }
}

/// Moves the reference position of an edge's midpoint along the edge to the
/// fraction `value`. A position without a coordinate of one half is no
/// midpoint of an edge.
pub fn shift_node_pos(pos: WorldCoords, value: i64) -> (moved: WorldCoords)
    requires
        pos.x.0 == HALF || pos.y.0 == HALF || pos.z.0 == HALF,
    ensures
        moved.ints() == shifted_position(pos.ints(), value as int),
{
    if pos.x.into_inner() == HALF {
        return WorldCoords::new(value, pos.y.into_inner(), pos.z.into_inner());
    }
    if pos.y.into_inner() == HALF {
        return WorldCoords::new(pos.x.into_inner(), value, pos.z.into_inner());
    }
    WorldCoords::new(pos.x.into_inner(), pos.y.into_inner(), value)
}

/// The sum of the squares of the components.
pub open spec fn squared_length(v: Coords<int>) -> int {
    v.x * v.x + v.y * v.y + v.z * v.z
}

/// The vector of length one thousand in the direction of `v`, each component
/// rounded toward zero; the zero vector where `v` is shorter than one.
pub open spec fn unit_vector(v: Coords<int>) -> Coords<int> {
    let length = integer_sqrt(squared_length(v));
    if length == 0 {
        Coords { x: 0, y: 0, z: 0 }
    } else {
        Coords {
            x: trunc_div(v.x * SCALE, length),
            y: trunc_div(v.y * SCALE, length),
            z: trunc_div(v.z * SCALE, length),
        }
    }
}

/// No component of a vector is longer than the vector.
proof fn lemma_component_within_length(v: Coords<int>, length: int)
    requires
        is_integer_sqrt(squared_length(v), length),
    ensures
        -length <= v.x <= length,
        -length <= v.y <= length,
        -length <= v.z <= length,
{
    assert(-length <= v.x <= length && -length <= v.y <= length && -length <= v.z <= length)
        by (nonlinear_arith)
        requires
            0 <= length,
            v.x * v.x + v.y * v.y + v.z * v.z < (length + 1) * (length + 1),
    ;
}

/// Scales a vector to length one thousand.
pub fn normalize(v: Coords<i64>) -> (unit: Coords<i64>)
    requires
        v.within(CROSS_LIMIT as int),
    ensures
        unit.ints() == unit_vector(v.ints()),
        unit.within(SCALE as int),
{
    proof {
        lemma_product_bound(v.x as int, v.x as int, CROSS_LIMIT as int);
        lemma_product_bound(v.y as int, v.y as int, CROSS_LIMIT as int);
        lemma_product_bound(v.z as int, v.z as int, CROSS_LIMIT as int);
        assert(v.x * v.x >= 0 && v.y * v.y >= 0 && v.z * v.z >= 0) by (nonlinear_arith);
    }
    let squares: u64 = (v.x * v.x + v.y * v.y + v.z * v.z) as u64;
    let length: i64 = isqrt(squares) as i64;
    if length == 0 {
        return Coords::<i64>::new(0, 0, 0);
    }
    proof {
        lemma_component_within_length(v.ints(), length as int);
        lemma_scaled_component(v.x as int, length as int);
        lemma_scaled_component(v.y as int, length as int);
        lemma_scaled_component(v.z as int, length as int);
    }
    Coords::<i64>::new(
        div_toward_zero(v.x * SCALE, length),
        div_toward_zero(v.y * SCALE, length),
        div_toward_zero(v.z * SCALE, length),
    )
}

/// A component of a vector, scaled by the vector's length, is at most one.
proof fn lemma_scaled_component(component: int, length: int)
    requires
        0 < length,
        -length <= component <= length,
    ensures
        -SCALE <= trunc_div(component * SCALE, length) <= SCALE,
{
    if component >= 0 {
        lemma_fraction_bound(component, length);
        assert(component * SCALE >= 0) by (nonlinear_arith)
            requires
                component >= 0,
        ;
    } else {
        lemma_fraction_bound(-component, length);
        assert(component * SCALE < 0 && -(component * SCALE) == (-component) * SCALE)
            by (nonlinear_arith)
            requires
                component < 0,
        ;
    }
}

/// The point at which the surface crosses the edge `edge` of the cell whose
/// origin is the voxel `origin`, in thousandths.
pub open spec fn node_point(origin: Coords<int>, nodes: Seq<Voxel>, edge: int) -> Coords<int> {
    let moved = shifted_position(node_position(edge), nodes[edge].value as int);
    Coords {
        x: moved.x + origin.x * SCALE,
        y: moved.y + origin.y * SCALE,
        z: moved.z + origin.z * SCALE,
    }
}

/// The difference `a - b` of two vectors.
pub open spec fn minus(a: Coords<int>, b: Coords<int>) -> Coords<int> {
    Coords { x: a.x - b.x, y: a.y - b.y, z: a.z - b.z }
}

/// The vertex at `point` of a triangle with the normal `normal`, made of
/// `material`: every vertex has the flat colour of its material.
pub open spec fn vertex_at(point: Coords<int>, normal: Coords<int>, material: VoxelMaterial)
    -> Vertex {
    Vertex {
        pos: Coords { x: Fixed(point.x as i64), y: Fixed(point.y as i64), z: Fixed(point.z as i64) },
        normal: Coords { x: normal.x as i64, y: normal.y as i64, z: normal.z as i64 },
        color: material.color(),
        voxel_material: material,
    }
}

/// The normal of the triangle through `a`, `b` and `c`: the unit vector
/// along `(c - a) x (b - a)`.
pub open spec fn triangle_normal(a: Coords<int>, b: Coords<int>, c: Coords<int>) -> Coords<int> {
    unit_vector(cross_product(minus(c, a), minus(b, a)))
}

/// The vertices of the triangle over the edges `a`, `b` and `c` of the cell
/// whose origin is the voxel `origin`: the crossing points of `c`, `b` and
/// `a`, in that order, all three with the triangle's normal. No vertices
/// where one of the three nodes has a negative value.
pub open spec fn triangle_vertices(
    origin: Coords<int>,
    nodes: Seq<Voxel>,
    a: int,
    b: int,
    c: int,
) -> Seq<Vertex> {
    if nodes[a].value < 0 || nodes[b].value < 0 || nodes[c].value < 0 {
        Seq::empty()
    } else {
        let a_pos = node_point(origin, nodes, a);
        let b_pos = node_point(origin, nodes, b);
        let c_pos = node_point(origin, nodes, c);
        let normal = triangle_normal(a_pos, b_pos, c_pos);
        seq![
            vertex_at(c_pos, normal, nodes[c].material),
            vertex_at(b_pos, normal, nodes[b].material),
            vertex_at(a_pos, normal, nodes[a].material),
        ]
    }
}

/// Farthest that the corners of a triangle may lie apart along one axis for
/// `face_normal` to compute its normal.
pub const NORMAL_SPAN: i64 = 0x4000;

/// Farthest from the origin that the corners of a triangle may lie along
/// one axis for `face_normal` to compute its normal.
pub const NORMAL_REACH: i64 = 0x100_0000_0000;

/// Whether `face_normal` can take the triangle through `a`, `b` and `c`.
pub open spec fn triangle_in_reach(a: Coords<int>, b: Coords<int>, c: Coords<int>) -> bool {
    &&& -NORMAL_REACH <= a.x <= NORMAL_REACH && -NORMAL_REACH <= a.y <= NORMAL_REACH
        && -NORMAL_REACH <= a.z <= NORMAL_REACH
    &&& -NORMAL_SPAN <= b.x - a.x <= NORMAL_SPAN && -NORMAL_SPAN <= b.y - a.y <= NORMAL_SPAN
        && -NORMAL_SPAN <= b.z - a.z <= NORMAL_SPAN
    &&& -NORMAL_SPAN <= c.x - a.x <= NORMAL_SPAN && -NORMAL_SPAN <= c.y - a.y <= NORMAL_SPAN
        && -NORMAL_SPAN <= c.z - a.z <= NORMAL_SPAN
}

/// The normal of the triangle through `a`, `b` and `c`.
pub fn face_normal(a: WorldCoords, b: WorldCoords, c: WorldCoords) -> (normal: Coords<i64>)
    requires
        triangle_in_reach(a.ints(), b.ints(), c.ints()),
    ensures
        normal.ints() == triangle_normal(a.ints(), b.ints(), c.ints()),
        normal.within(SCALE as int),
{
    let to_c = (c - a).into_inners();
    let to_b = (b - a).into_inners();
    assert(to_c.ints() == minus(c.ints(), a.ints()));
    assert(to_b.ints() == minus(b.ints(), a.ints()));
    proof {
        lemma_product_bound(to_c.y as int, to_b.z as int, NORMAL_SPAN as int);
        lemma_product_bound(to_b.y as int, to_c.z as int, NORMAL_SPAN as int);
        lemma_product_bound(to_c.z as int, to_b.x as int, NORMAL_SPAN as int);
        lemma_product_bound(to_b.z as int, to_c.x as int, NORMAL_SPAN as int);
        lemma_product_bound(to_c.x as int, to_b.y as int, NORMAL_SPAN as int);
        lemma_product_bound(to_b.x as int, to_c.y as int, NORMAL_SPAN as int);
    }
    let raw = to_c.cross(to_b);
    normalize(raw)
}

/// Computes the point at which the surface crosses the edge of `node` in
/// the cell whose origin is the voxel `pos`.
pub fn crossing_point(pos: VoxelCoords, nodes: &Nodes, node: VertexNode) -> (point: WorldCoords)
    requires
        node.index < 12 && node == base_node(node.index as int),
        0 <= nodes[node.index as int].value <= SCALE,
    ensures
        point.ints() == node_point(pos.ints(), nodes@, node.index as int),
        pos.x * SCALE <= point.x.0 <= pos.x * SCALE + SCALE,
        pos.y * SCALE <= point.y.0 <= pos.y * SCALE + SCALE,
        pos.z * SCALE <= point.z.0 <= pos.z * SCALE + SCALE,
{
    let pos_vec = WorldCoords::new(
        pos.x as i64 * SCALE,
        pos.y as i64 * SCALE,
        pos.z as i64 * SCALE,
    );
    shift_node_pos(node.pos, nodes[node.index].value as i64) + pos_vec
}

/// Appends to `vertices` the triangle over the edges `a`, `b` and `c` of the
/// cell whose origin is the voxel `pos`; appends nothing where one of the
/// three nodes has a negative value.
pub fn append_triangle(
    pos: VoxelCoords,
    vertices: &mut Vec<Vertex>,
    nodes: Nodes,
    a: VertexNode,
    b: VertexNode,
    c: VertexNode,
)
    requires
        a.index < 12 && a == base_node(a.index as int),
        b.index < 12 && b == base_node(b.index as int),
        c.index < 12 && c == base_node(c.index as int),
        nodes[a.index as int].value <= SCALE,
        nodes[b.index as int].value <= SCALE,
        nodes[c.index as int].value <= SCALE,
    ensures
        final(vertices)@ == old(vertices)@ + triangle_vertices(
            pos.ints(),
            nodes@,
            a.index as int,
            b.index as int,
            c.index as int,
        ),
{
    let a_v = nodes[a.index];
    let b_v = nodes[b.index];
    let c_v = nodes[c.index];

    if a_v.value < 0 || b_v.value < 0 || c_v.value < 0 {
        assert(vertices@ =~= old(vertices)@ + Seq::<Vertex>::empty());
        return ;
    }
    let a_pos = crossing_point(pos, &nodes, a);
    let b_pos = crossing_point(pos, &nodes, b);
    let c_pos = crossing_point(pos, &nodes, c);
    let normal = face_normal(a_pos, b_pos, c_pos);

    let vc = Vertex {
        color: c_v.material.color(),
        normal,
        pos: c_pos,
        voxel_material: c_v.material,
    };
    let vb = Vertex {
        color: b_v.material.color(),
        normal,
        pos: b_pos,
        voxel_material: b_v.material,
    };
    let va = Vertex {
        color: a_v.material.color(),
        normal,
        pos: a_pos,
        voxel_material: a_v.material,
    };

    vertices.push(vc);
    vertices.push(vb);
    vertices.push(va);
    proof {
        let pa = node_point(pos.ints(), nodes@, a.index as int);
        let pb = node_point(pos.ints(), nodes@, b.index as int);
        let pc = node_point(pos.ints(), nodes@, c.index as int);
        let n = triangle_normal(pa, pb, pc);
        assert(vc == vertex_at(pc, n, nodes@[c.index as int].material));
        assert(vb == vertex_at(pb, n, nodes@[b.index as int].material));
        assert(va == vertex_at(pa, n, nodes@[a.index as int].material));
        assert(vertices@ =~= old(vertices)@ + triangle_vertices(
            pos.ints(),
            nodes@,
            a.index as int,
            b.index as int,
            c.index as int,
        ));
    }
}

/// The vertices of the first `count` triangles of the cell whose origin is
/// the voxel `origin` and whose corners hold the voxels `corners`: the
/// triangles that the case table lists for the pattern of the corners, in
/// the order of the table.
pub open spec fn row_triangles(origin: Coords<int>, corners: Seq<Voxel>, count: int) -> Seq<
    Vertex,
>
    decreases count,
{
    if count <= 0 {
        Seq::empty()
    } else {
        let mask = case_index(corners);
        row_triangles(origin, corners, count - 1) + triangle_vertices(
            origin,
            nodes_of_cell(corners),
            table_entry(mask, 3 * (count - 1)),
            table_entry(mask, 3 * (count - 1) + 1),
            table_entry(mask, 3 * (count - 1) + 2),
        )
    }
}

/// The vertices of the surface inside one cell.
pub open spec fn cell_surface(origin: Coords<int>, corners: Seq<Voxel>) -> Seq<Vertex> {
    row_triangles(origin, corners, triangle_count(case_index(corners)))
}

/// The vertices of the surface inside the first `cells` cells of a field.
/// The cells are counted x-major, as the voxels are: a field of edge length
/// `size` has `size - 1` cells along each axis.
pub open spec fn surface_before(field: Seq<Voxel>, size: int, cells: int) -> Seq<Vertex>
    decreases cells,
{
    if cells <= 0 {
        Seq::empty()
    } else {
        let x = index_x(size - 1, cells - 1);
        let y = index_y(size - 1, cells - 1);
        let z = index_z(size - 1, cells - 1);
        surface_before(field, size, cells - 1) + cell_surface(
            Coords { x, y, z },
            cell_corners(field, size, x, y, z),
        )
    }
}

/// The vertices of the whole surface of a field: three for each triangle,
/// cell after cell. No vertex is shared between triangles.
pub open spec fn surface(field: Seq<Voxel>, size: int) -> Seq<Vertex> {
    surface_before(field, size, volume(size - 1))
}

/// Applies marching cubes to a field of voxels: appends to `vertices` the
/// triangles of the field's surface. `field_size` is the number of voxels
/// along each axis of the field.
pub fn find_triangles(vertices: &mut Vec<Vertex>, field: &Vec<Voxel>, field_size: u32)
    requires
        1 <= field_size <= MAX_FIELD_SIZE,
        field.len() == volume(field_size as int),
    ensures
        final(vertices)@ == old(vertices)@ + surface(field@, field_size as int),
{
    let cells_per_axis: usize = (field_size - 1) as usize;
    proof {
        lemma_volume_bound(cells_per_axis as int);
    }
    let cell_count: usize = cells_per_axis * cells_per_axis * cells_per_axis;
    let nodes_arr = get_base_nodes();
    let mut cell: usize = 0;
    assert(vertices@ =~= old(vertices)@ + surface_before(field@, field_size as int, 0));
    while cell < cell_count
        invariant
            1 <= field_size <= MAX_FIELD_SIZE,
            field.len() == volume(field_size as int),
            cells_per_axis == field_size - 1,
            cell_count == volume(cells_per_axis as int),
            cell <= cell_count,
            forall|edge: int| 0 <= edge < 12 ==> #[trigger] nodes_arr[edge] == base_node(edge),
            vertices@ == old(vertices)@ + surface_before(field@, field_size as int, cell as int),
        decreases cell_count - cell,
    {
        let pos = delinearize(cells_per_axis, cell);
        let voxels = get_voxels_for_vertex(field, pos, field_size);
        let nodes = get_vertex_nodes(voxels);
        let index = get_index_by_voxels(voxels);
        let triangle_points = case_row(index);
        let ghost corners = block_corners(voxels);
        let ghost before = vertices@;
        let ghost count = triangle_count(index as int);
        let ghost mut done: int = 0;
        proof {
            lemma_table_is_sound(index as int);
        }
        let mut triangle_offset: usize = 0;
        assert(vertices@ =~= before + row_triangles(pos.ints(), corners, 0));
        while triangle_points[triangle_offset] != -1
            invariant
                index < 256,
                index == case_index(corners),
                count == triangle_count(index as int),
                0 <= count <= 5,
                forall|k: int| 0 <= k < 16 ==> entry_is_sound(index as int, k),
                forall|k: int|
                    0 <= k < 16 ==> #[trigger] triangle_points[k] == table_entry(index as int, k),
                forall|edge: int| 0 <= edge < 12 ==> #[trigger] nodes_arr[edge] == base_node(edge),
                nodes@ == nodes_of_cell(corners),
                triangle_offset == 3 * done,
                0 <= done <= count,
                vertices@ == before + row_triangles(pos.ints(), corners, done),
            decreases count - done,
        {
            assert(entry_is_sound(index as int, triangle_offset as int));
            assert(entry_is_sound(index as int, triangle_offset + 1));
            assert(entry_is_sound(index as int, triangle_offset + 2));
            let a = nodes_arr[triangle_points[triangle_offset] as usize];
            let b = nodes_arr[triangle_points[triangle_offset + 1] as usize];
            let c = nodes_arr[triangle_points[triangle_offset + 2] as usize];
            proof {
                lemma_node_value_bounds(corners, a.index as int);
                lemma_node_value_bounds(corners, b.index as int);
                lemma_node_value_bounds(corners, c.index as int);
            }
            append_triangle(pos, vertices, nodes, a, b, c);
            triangle_offset += 3;
            proof {
                done = done + 1;
                assert(vertices@ =~= before + row_triangles(pos.ints(), corners, done));
            }
        }
        assert(entry_is_sound(index as int, triangle_offset as int));
        assert(done == count);
        cell += 1;
        assert(vertices@ =~= old(vertices)@ + surface_before(field@, field_size as int, cell as int));
    }
}

/// The node of every edge of a cell holds a fraction between zero and one.
pub proof fn lemma_node_value_bounds(corners: Seq<Voxel>, edge: int)
    requires
        0 <= edge < 12,
    ensures
        0 <= nodes_of_cell(corners)[edge].value <= SCALE,
{
    lemma_crossing_fraction_bounds(
        corners[edge_corner_a(edge)].value as int,
        corners[edge_corner_b(edge)].value as int,
    );
}

/// Every triangle that the case table lists for a cell is part of the
/// cell's surface: none is left out, and each has three vertices.
pub proof fn lemma_cell_surface_len(origin: Coords<int>, corners: Seq<Voxel>)
    requires
        corners.len() == 8,
    ensures
        cell_surface(origin, corners).len() == 3 * triangle_count(case_index(corners)),
{
    lemma_case_index_bits(corners, 0);
    lemma_table_is_sound(case_index(corners));
    lemma_row_triangles_len(origin, corners, triangle_count(case_index(corners)));
}

proof fn lemma_row_triangles_len(origin: Coords<int>, corners: Seq<Voxel>, count: int)
    requires
        0 <= case_index(corners) < 256,
        0 <= count <= triangle_count(case_index(corners)),
        forall|k: int| 0 <= k < 16 ==> entry_is_sound(case_index(corners), k),
    ensures
        row_triangles(origin, corners, count).len() == 3 * count,
    decreases count,
{
    if count > 0 {
        lemma_row_triangles_len(origin, corners, count - 1);
        let mask = case_index(corners);
        assert(entry_is_sound(mask, 3 * (count - 1)));
        assert(entry_is_sound(mask, 3 * (count - 1) + 1));
        assert(entry_is_sound(mask, 3 * (count - 1) + 2));
        lemma_node_value_bounds(corners, table_entry(mask, 3 * (count - 1)));
        lemma_node_value_bounds(corners, table_entry(mask, 3 * (count - 1) + 1));
        lemma_node_value_bounds(corners, table_entry(mask, 3 * (count - 1) + 2));
    }
}

/// The surface inside a cell touches no edge whose two ends are both solid
/// or both empty: every edge that the row of the cell's pattern names has
/// an active voxel at exactly one of its ends.
pub proof fn lemma_surface_edges_cross(corners: Seq<Voxel>, k: int)
    requires
        corners.len() == 8,
        0 <= k < 3 * triangle_count(case_index(corners)),
    ensures
        0 <= table_entry(case_index(corners), k) < 12,
        corners[edge_corner_a(table_entry(case_index(corners), k))].is_active()
            != corners[edge_corner_b(table_entry(case_index(corners), k))].is_active(),
{
    let mask = case_index(corners);
    lemma_case_index_bits(corners, 0);
    lemma_table_is_sound(mask);
    assert(entry_is_sound(mask, k));
    let edge = table_entry(mask, k);
    lemma_case_index_bits(corners, edge_corner_a(edge));
    lemma_case_index_bits(corners, edge_corner_b(edge));
}

/// The surface inside a cell passes through every edge whose two ends
/// differ: the row of the cell's pattern names each edge that has an active
/// voxel at exactly one of its ends.
pub proof fn lemma_surface_reaches_crossed_edges(corners: Seq<Voxel>, edge: int)
    requires
        corners.len() == 8,
        0 <= edge < 12,
        corners[edge_corner_a(edge)].is_active() != corners[edge_corner_b(edge)].is_active(),
    ensures
        row_names(case_index(corners), edge),
{
    let mask = case_index(corners);
    lemma_case_index_bits(corners, edge_corner_a(edge));
    lemma_case_index_bits(corners, edge_corner_b(edge));
    lemma_table_is_sound(mask);
}

/// The surface of a field is made of whole triangles: its vertices come in
/// threes.
pub proof fn lemma_surface_is_whole_triangles(field: Seq<Voxel>, size: int, cells: int)
    ensures
        surface_before(field, size, cells).len() % 3 == 0,
    decreases cells,
{
    if cells > 0 {
        lemma_surface_is_whole_triangles(field, size, cells - 1);
        let x = index_x(size - 1, cells - 1);
        let y = index_y(size - 1, cells - 1);
        let z = index_z(size - 1, cells - 1);
        lemma_cell_surface_len(Coords { x, y, z }, cell_corners(field, size, x, y, z));
    }
}

} // verus!
