use voxel_entity::common::coords::{Coords, Fixed, VoxelCoords, WorldCoords};
use voxel_entity::common::vertex::Vertex;
use voxel_entity::common::voxel_material::{Rgba, VoxelMaterial};
use voxel_entity::common::voxels::Voxel;
use voxel_entity::marching_cubes::{
    append_triangle, chose_voxel_for_node, crossing_point, face_normal, find_triangles,
    get_base_nodes, get_node_dn, get_node_ds, get_node_dw, get_node_sw, get_node_ue,
    get_vertex_nodes, get_voxel_with_field_size, get_voxels_for_vertex, normalize, shift_node_pos,
};
use voxel_entity::procedural_entity::ProceduralEntity;

fn air() -> Voxel {
    Voxel::from(-1000)
}

fn cell_with_solid_corners(corners: &[(usize, usize, usize)]) -> Vec<Voxel> {
    let mut field = vec![air(); 8];
    for &(x, y, z) in corners {
        field[z + 2 * y + 4 * x] = Voxel::from(1000);
    }
    field
}

fn dot(a: (i64, i64, i64), b: (i64, i64, i64)) -> i64 {
    a.0 * b.0 + a.1 * b.1 + a.2 * b.2
}

#[test]
fn edge_interpolation_midpoint() {
    let node = chose_voxel_for_node(Voxel::from(-1000), Voxel::from(1000));
    assert_eq!(node.value, 500);
    assert_eq!(node.material, VoxelMaterial::AIR);
    assert_eq!(chose_voxel_for_node(Voxel::from(1000), Voxel::from(-1000)).value, 500);
    assert_eq!(chose_voxel_for_node(Voxel::from(-7), Voxel::from(7)).value, 500);
}

#[test]
fn crossing_fraction_from_the_empty_end() {
    assert_eq!(chose_voxel_for_node(Voxel::from(-250), Voxel::from(750)).value, 250);
    assert_eq!(chose_voxel_for_node(Voxel::from(-1000), Voxel::from(0)).value, 1000);
    assert_eq!(chose_voxel_for_node(Voxel::from(-1), Voxel::from(2)).value, 333);
    assert_eq!(chose_voxel_for_node(Voxel::from(i32::MIN), Voxel::from(i32::MAX)).value, 500);
}

#[test]
fn crossing_fraction_from_the_solid_end() {
    assert_eq!(chose_voxel_for_node(Voxel::from(750), Voxel::from(-250)).value, 750);
    assert_eq!(chose_voxel_for_node(Voxel::from(0), Voxel::from(-1000)).value, 0);
    assert_eq!(chose_voxel_for_node(Voxel::from(2), Voxel::from(-1)).value, 667);
}

#[test]
fn no_crossing_between_ends_of_the_same_kind() {
    assert_eq!(chose_voxel_for_node(Voxel::from(5), Voxel::from(900)).value, 0);
    assert_eq!(chose_voxel_for_node(Voxel::from(-5), Voxel::from(-900)).value, 0);
    assert_eq!(chose_voxel_for_node(Voxel::from(-5), Voxel::from(-5)).value, 0);
    assert_eq!(chose_voxel_for_node(Voxel::from(0), Voxel::from(0)).value, 0);
}

#[test]
fn base_nodes_are_numbered_in_order() {
    let nodes = get_base_nodes();
    for (i, node) in nodes.iter().enumerate() {
        assert_eq!(node.index, i);
        let p = node.pos.into_inners_arr();
        assert_eq!(p.iter().filter(|&&c| c == 500).count(), 1);
        assert!(p.iter().all(|&c| c == 0 || c == 500 || c == 1000));
    }
    assert_eq!(get_node_dn().pos, WorldCoords::new(500, 0, 1000));
    assert_eq!(get_node_ue().pos, WorldCoords::new(1000, 1000, 500));
    assert_eq!(get_node_sw().pos, WorldCoords::new(0, 500, 0));
    assert_eq!(get_node_ds().index, 2);
}

#[test]
fn shift_replaces_the_half_coordinate() {
    assert_eq!(shift_node_pos(WorldCoords::new(500, 0, 1000), 123), WorldCoords::new(123, 0, 1000));
    assert_eq!(shift_node_pos(WorldCoords::new(1000, 500, 0), 7), WorldCoords::new(1000, 7, 0));
    assert_eq!(shift_node_pos(WorldCoords::new(0, 1000, 500), 999), WorldCoords::new(0, 1000, 999));
    assert_eq!(shift_node_pos(WorldCoords::new(500, 500, 0), 1), WorldCoords::new(1, 500, 0));
}

#[test]
fn gathering_the_corners_of_a_cell() {
    let mut field = Vec::new();
    for i in 0..27 {
        field.push(Voxel::from(i));
    }
    assert_eq!(get_voxel_with_field_size(&field, VoxelCoords::new(1, 2, 0), 3).value, 15);
    let block = get_voxels_for_vertex(&field, VoxelCoords::new(1, 0, 1), 3);
    for x in 0..2usize {
        for y in 0..2usize {
            for z in 0..2usize {
                let expected = (1 + z) + 3 * y + 9 * (1 + x);
                assert_eq!(block[x][y][z].value, expected as i32);
            }
        }
    }
}

#[test]
fn nodes_of_a_cell_with_one_solid_corner() {
    let field = cell_with_solid_corners(&[(0, 0, 0)]);
    let block = get_voxels_for_vertex(&field, VoxelCoords::new(0, 0, 0), 2);
    let nodes = get_vertex_nodes(block);
    for (edge, node) in nodes.iter().enumerate() {
        let expected = if edge == 2 || edge == 3 || edge == 11 { 500 } else { 0 };
        assert_eq!(node.value, expected, "edge {}", edge);
        assert_eq!(node.material, VoxelMaterial::AIR);
    }
}

#[test]
fn normalize_scales_to_a_thousand() {
    assert_eq!(normalize(Coords { x: 3, y: 4, z: 0 }), Coords { x: 600, y: 800, z: 0 });
    assert_eq!(normalize(Coords { x: 0, y: 0, z: -5 }), Coords { x: 0, y: 0, z: -1000 });
    assert_eq!(
        normalize(Coords { x: 250000, y: 250000, z: 250000 }),
        Coords { x: 577, y: 577, z: 577 }
    );
    assert_eq!(normalize(Coords { x: -1, y: 2, z: -2 }), Coords { x: -333, y: 666, z: -666 });
    assert_eq!(normalize(Coords { x: 0, y: 0, z: 0 }), Coords { x: 0, y: 0, z: 0 });
}

#[test]
fn face_normal_follows_the_winding() {
    let a = WorldCoords::new(500, 0, 0);
    let b = WorldCoords::new(0, 0, 500);
    let c = WorldCoords::new(0, 500, 0);
    assert_eq!(face_normal(a, b, c), Coords { x: 577, y: 577, z: 577 });
    assert_eq!(face_normal(a, c, b), Coords { x: -577, y: -577, z: -577 });
    assert_eq!(face_normal(a, a, a), Coords { x: 0, y: 0, z: 0 });
}

#[test]
fn crossing_point_adds_the_cell_origin() {
    let mut nodes = [Voxel::from(0); 12];
    nodes[3] = Voxel::from(250);
    let point = crossing_point(VoxelCoords::new(2, 7, 255), &nodes, get_node_dw());
    assert_eq!(point, WorldCoords::new(2000, 7000, 255250));
}

#[test]
fn single_triangle_of_one_solid_corner() {
    let field = cell_with_solid_corners(&[(0, 0, 0)]);
    let mut vertices = Vec::new();
    find_triangles(&mut vertices, &field, 2);
    assert_eq!(vertices.len(), 3);
    let normal = Coords { x: 577i64, y: 577, z: 577 };
    let ochre = Rgba { red: 600, green: 500, blue: 200, alpha: 1000 };
    let expected = [
        WorldCoords::new(0, 500, 0),
        WorldCoords::new(0, 0, 500),
        WorldCoords::new(500, 0, 0),
    ];
    for (vertex, pos) in vertices.iter().zip(expected.iter()) {
        assert_eq!(vertex.pos, *pos);
        assert_eq!(vertex.normal, normal);
        assert_eq!(vertex.color, ochre);
        assert_eq!(vertex.voxel_material, VoxelMaterial::AIR);
    }
}

#[test]
fn triangle_winding_points_away_from_the_solid() {
    for x in 0..2usize {
        for y in 0..2usize {
            for z in 0..2usize {
                let field = cell_with_solid_corners(&[(x, y, z)]);
                let mut vertices: Vec<Vertex> = Vec::new();
                find_triangles(&mut vertices, &field, 2);
                assert_eq!(vertices.len(), 3);
                let n = vertices[0].normal;
                assert_eq!(vertices[1].normal, n);
                assert_eq!(vertices[2].normal, n);
                let sum = vertices.iter().fold((0, 0, 0), |s, v| {
                    (s.0 + v.pos.x.0, s.1 + v.pos.y.0, s.2 + v.pos.z.0)
                });
                let toward_solid = (
                    3000 * x as i64 - sum.0,
                    3000 * y as i64 - sum.1,
                    3000 * z as i64 - sum.2,
                );
                assert!(dot((n.x, n.y, n.z), toward_solid) < 0, "corner {} {} {}", x, y, z);
            }
        }
    }
}

#[test]
fn triangle_winding_points_toward_the_single_empty_corner() {
    for x in 0..2usize {
        for y in 0..2usize {
            for z in 0..2usize {
                let mut field = vec![Voxel::from(1000); 8];
                field[z + 2 * y + 4 * x] = air();
                let mut vertices: Vec<Vertex> = Vec::new();
                find_triangles(&mut vertices, &field, 2);
                assert_eq!(vertices.len(), 3);
                let n = vertices[0].normal;
                let sum = vertices.iter().fold((0, 0, 0), |s, v| {
                    (s.0 + v.pos.x.0, s.1 + v.pos.y.0, s.2 + v.pos.z.0)
                });
                let toward_air = (
                    3000 * x as i64 - sum.0,
                    3000 * y as i64 - sum.1,
                    3000 * z as i64 - sum.2,
                );
                assert!(dot((n.x, n.y, n.z), toward_air) > 0, "corner {} {} {}", x, y, z);
            }
        }
    }
}

#[test]
fn every_normal_points_down_the_density() {
    // For every pattern, each triangle's normal must point from the solid
    // corners toward the empty ones.
    for mask in 1..255usize {
        let mut field = vec![air(); 8];
        for corner in 0..8 {
            if (mask >> corner) & 1 == 1 {
                field[corner] = Voxel::from(1000);
            }
        }
        let mut vertices: Vec<Vertex> = Vec::new();
        find_triangles(&mut vertices, &field, 2);
        assert_eq!(vertices.len() % 3, 0);
        assert!(!vertices.is_empty());
        for t in vertices.chunks(3) {
            let n = t[0].normal;
            let cx = (t[0].pos.x.0 + t[1].pos.x.0 + t[2].pos.x.0) as f64 / 3000.0;
            let cy = (t[0].pos.y.0 + t[1].pos.y.0 + t[2].pos.y.0) as f64 / 3000.0;
            let cz = (t[0].pos.z.0 + t[1].pos.z.0 + t[2].pos.z.0) as f64 / 3000.0;
            let mut g = [0.0f64; 3];
            for corner in 0..8usize {
                let c = [(corner >> 2) & 1, (corner >> 1) & 1, corner & 1];
                let value = if (mask >> corner) & 1 == 1 { 1.0 } else { -1.0 };
                let p = [cx, cy, cz];
                let w: Vec<f64> = (0..3).map(|k| if c[k] == 1 { p[k] } else { 1.0 - p[k] }).collect();
                for k in 0..3 {
                    let sign = if c[k] == 1 { 1.0 } else { -1.0 };
                    g[k] += value * sign * w[(k + 1) % 3] * w[(k + 2) % 3];
                }
            }
            let along = n.x as f64 * g[0] + n.y as f64 * g[1] + n.z as f64 * g[2];
            assert!(along < 0.0, "pattern {}", mask);
        }
    }
}

#[test]
fn flat_floor_gives_a_flat_surface() {
    let size = 4usize;
    let mut entity = ProceduralEntity::new(size);
    for x in 0..size {
        for z in 0..size {
            entity.voxel_field[z + x * size * size] = Voxel::from(1000);
        }
    }
    entity.generate_vertices();
    assert_eq!(entity.vertices.len(), 9 * 2 * 3);
    for v in entity.vertices.iter() {
        assert_eq!(v.pos.y, Fixed(500));
        assert_eq!(v.normal, Coords { x: 0, y: 1000, z: 0 });
    }
}

#[test]
fn vertices_are_regenerated_from_scratch() {
    let mut entity = ProceduralEntity::new(3);
    entity.voxel_field[13] = Voxel::from(1000);
    entity.generate_vertices();
    let first = entity.vertices.clone();
    assert_eq!(first.len(), 8 * 3);
    entity.generate_vertices();
    assert_eq!(entity.vertices, first);
    entity.voxel_field[13] = Voxel::from(-1000);
    entity.generate_vertices();
    assert!(entity.vertices.is_empty());
}

#[test]
fn find_triangles_appends_behind_what_is_there() {
    let field = cell_with_solid_corners(&[(1, 1, 1)]);
    let mut vertices = Vec::new();
    find_triangles(&mut vertices, &field, 2);
    let once = vertices.clone();
    find_triangles(&mut vertices, &field, 2);
    assert_eq!(vertices.len(), 6);
    assert_eq!(&vertices[..3], &once[..]);
    assert_eq!(&vertices[3..], &once[..]);
}

#[test]
fn field_of_one_voxel_has_no_cells() {
    let mut vertices = Vec::new();
    find_triangles(&mut vertices, &vec![Voxel::from(1000)], 1);
    assert!(vertices.is_empty());
}

#[test]
fn cells_come_in_x_major_order() {
    let mut field = vec![air(); 27];
    field[0] = Voxel::from(1000);
    field[26] = Voxel::from(1000);
    let mut vertices = Vec::new();
    find_triangles(&mut vertices, &field, 3);
    assert_eq!(vertices.len(), 6);
    for v in &vertices[..3] {
        assert!(v.pos.x.0 <= 500 && v.pos.y.0 <= 500 && v.pos.z.0 <= 500);
        assert_eq!(v.normal, Coords { x: 577, y: 577, z: 577 });
    }
    for v in &vertices[3..] {
        assert!(v.pos.x.0 >= 1500 && v.pos.y.0 >= 1500 && v.pos.z.0 >= 1500);
        assert_eq!(v.normal, Coords { x: -577, y: -577, z: -577 });
    }
}

#[test]
fn append_triangle_pushes_c_b_a() {
    let mut nodes = [Voxel::from(0); 12];
    nodes[2] = Voxel::from(100);
    nodes[3] = Voxel::from(200);
    nodes[11] = Voxel::from(300);
    let mut vertices = Vec::new();
    append_triangle(
        VoxelCoords::new(1, 2, 3),
        &mut vertices,
        nodes,
        get_node_ds(),
        get_node_dw(),
        get_node_sw(),
    );
    assert_eq!(vertices.len(), 3);
    assert_eq!(vertices[0].pos, WorldCoords::new(1000, 2300, 3000));
    assert_eq!(vertices[1].pos, WorldCoords::new(1000, 2000, 3200));
    assert_eq!(vertices[2].pos, WorldCoords::new(1100, 2000, 3000));
    // (c - a) x (b - a) = (-100, 300, 0) x (-100, 0, 200) = (60000, 20000, 30000)
    assert_eq!(vertices[0].normal, Coords { x: 857, y: 285, z: 428 });
}

#[test]
fn append_triangle_skips_a_negative_node() {
    let mut nodes = [Voxel::from(0); 12];
    nodes[3] = Voxel::from(-1);
    let mut vertices = Vec::new();
    append_triangle(
        VoxelCoords::new(0, 0, 0),
        &mut vertices,
        nodes,
        get_node_ds(),
        get_node_dw(),
        get_node_sw(),
    );
    assert!(vertices.is_empty());
}

#[test]
fn stone_is_grey_and_the_rest_is_ochre() {
    assert_eq!(
        VoxelMaterial::STONE.color(),
        Rgba { red: 400, green: 400, blue: 400, alpha: 1000 }
    );
    assert_eq!(VoxelMaterial::AIR.color(), Rgba { red: 600, green: 500, blue: 200, alpha: 1000 });
}
