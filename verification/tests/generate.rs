use voxel_entity::common::coords::VoxelCoords;
use voxel_entity::common::vertex::Vertex;
use voxel_entity::common::coords::{Coords, WorldCoords};
use voxel_entity::common::voxel_material::{Rgba, VoxelMaterial};
use voxel_entity::entity_mesh::generate_mesh;
use voxel_entity::procedural_entity::generate::{SPHERE_RADIUS, SPHERE_SHIFT};
use voxel_entity::procedural_entity::ProceduralEntity;

#[test]
fn distance_to_a_sphere() {
    let c = VoxelCoords::new(10, 10, 10);
    assert_eq!(ProceduralEntity::sdf_sphere(c, c, 15000), -15000);
    assert_eq!(ProceduralEntity::sdf_sphere(VoxelCoords::new(13, 14, 10), c, 4000), 1000);
    assert_eq!(ProceduralEntity::sdf_sphere(VoxelCoords::new(10, 10, 0), c, 10000), 0);
    assert_eq!(ProceduralEntity::sdf_sphere(VoxelCoords::new(11, 11, 10), c, 0), 1414);
    assert_eq!(ProceduralEntity::sdf_sphere(VoxelCoords::new(9, 9, 9), c, 2000), 1732 - 2000);
    assert_eq!(
        ProceduralEntity::sdf_sphere(VoxelCoords::new(0, 0, 0), VoxelCoords::new(255, 255, 255), 0),
        441672
    );
    assert_eq!(
        ProceduralEntity::sdf_sphere(VoxelCoords::new(255, 0, 255), VoxelCoords::new(0, 255, 0), -5),
        441677
    );
}

#[test]
fn generated_field_is_the_overlap_of_two_spheres() {
    assert_eq!(SPHERE_RADIUS, 15000);
    assert_eq!(SPHERE_SHIFT, 3);
    let mut entity = ProceduralEntity::new(40);
    entity.generate_voxels();
    assert_eq!(entity.field_size, 40);
    assert_eq!(entity.voxel_field.len(), 64000);
    let at = |x: usize, y: usize, z: usize| entity.voxel_field[z + y * 40 + x * 1600];
    // the middle lies sqrt(27) = 5.196 from both centres
    assert_eq!(at(20, 20, 20).value, 15000 - 5196);
    // the first centre lies sqrt(108) = 10.392 from the second
    assert_eq!(at(17, 17, 17).value, 15000 - 10392);
    assert_eq!(at(23, 23, 23).value, 15000 - 10392);
    assert_eq!(at(0, 0, 0).value, 15000 - 39837);
    assert!(entity.voxel_field.iter().all(|v| v.material == VoxelMaterial::AIR));
    for x in 0..40 {
        for y in 0..40 {
            for z in 0..40 {
                let d = |c: i64| {
                    let (dx, dy, dz) = (x as i64 - c, y as i64 - c, z as i64 - c);
                    ((dx * dx + dy * dy + dz * dz) as f64).sqrt() * 1000.0
                };
                let far = d(17).max(d(23));
                let value = at(x, y, z).value as f64;
                assert!((value - (15000.0 - far)).abs() <= 1.0);
            }
        }
    }
    entity.minimize_field_size();
    assert!(entity.field_size < 40);
    entity.generate_vertices();
    assert!(!entity.vertices.is_empty());
    assert_eq!(entity.extract_regions().len(), 1);
}

#[test]
fn mesh_buffers_list_every_vertex() {
    let vertex = |x: i64, material: VoxelMaterial| Vertex {
        pos: WorldCoords::new(x, 2 * x, 3 * x),
        normal: Coords { x: 0, y: -1000, z: x },
        color: material.color(),
        voxel_material: material,
    };
    let mesh = generate_mesh(vec![
        vertex(1, VoxelMaterial::AIR),
        vertex(2, VoxelMaterial::STONE),
        vertex(3, VoxelMaterial::AIR),
    ]);
    assert_eq!(mesh.indices, vec![0, 1, 2]);
    assert_eq!(mesh.positions, vec![[1, 2, 3], [2, 4, 6], [3, 6, 9]]);
    assert_eq!(mesh.normals, vec![[0, -1000, 1], [0, -1000, 2], [0, -1000, 3]]);
    let ochre = Rgba { red: 600, green: 500, blue: 200, alpha: 1000 };
    let grey = Rgba { red: 400, green: 400, blue: 400, alpha: 1000 };
    assert_eq!(mesh.colors, vec![ochre, grey, ochre]);
    assert_eq!(mesh.uvs, vec![[1000, 1000]; 3]);
    let empty = generate_mesh(Vec::new());
    assert!(empty.indices.is_empty() && empty.positions.is_empty() && empty.uvs.is_empty());
}
