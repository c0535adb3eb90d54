use voxel_entity::common::coords::WorldCoords;
use voxel_entity::common::voxel_material::VoxelMaterial;
use voxel_entity::common::voxels::Voxel;
use voxel_entity::procedural_entity::ProceduralEntity;

fn stone(value: i32) -> Voxel {
    Voxel { value, material: VoxelMaterial::STONE }
}

fn index(size: usize, x: usize, y: usize, z: usize) -> usize {
    z + y * size + x * size * size
}

fn active_count(entity: &ProceduralEntity) -> usize {
    entity.voxel_field.iter().filter(|v| v.value >= 0).count()
}

fn block(entity: &mut ProceduralEntity, x0: usize, y0: usize, z0: usize, value: i32) {
    let n = entity.field_size;
    for x in x0..x0 + 2 {
        for y in y0..y0 + 2 {
            for z in z0..z0 + 2 {
                entity.voxel_field[index(n, x, y, z)] = stone(value);
            }
        }
    }
}

#[test]
fn carve_splits_a_bar_in_two() {
    let mut entity = ProceduralEntity::new(10);
    for x in 1..9 {
        entity.voxel_field[index(10, x, 5, 5)] = stone(500);
    }
    let pieces = entity.carve(WorldCoords::new(4500, 5500, 5500), 600, 1);
    assert_eq!(entity.voxel_field[index(10, 4, 5, 5)], stone(-100));
    assert_eq!(entity.modification_count, 1);
    assert_eq!(pieces.len(), 2);
    assert_eq!(active_count(&pieces[0]), 3);
    assert_eq!(active_count(&pieces[1]), 4);
    for piece in pieces.iter() {
        assert_eq!(piece.field_size, 10);
        assert!(piece.voxel_field[index(10, 4, 5, 5)].value < 0);
        assert!(piece.vertices.is_empty());
        assert_eq!(piece.modification_count, 1);
        assert_eq!(piece.modification_threshold, 20);
    }
    for x in 1..4 {
        assert_eq!(pieces[0].voxel_field[index(10, x, 5, 5)], stone(500));
        assert_eq!(
            pieces[1].voxel_field[index(10, x, 5, 5)],
            Voxel { value: -100, material: VoxelMaterial::AIR }
        );
    }
    for x in 5..9 {
        assert_eq!(pieces[1].voxel_field[index(10, x, 5, 5)], stone(500));
        assert_eq!(
            pieces[0].voxel_field[index(10, x, 5, 5)],
            Voxel { value: -100, material: VoxelMaterial::AIR }
        );
    }
}

#[test]
fn carve_of_no_shell_leaves_the_bar_whole() {
    let mut entity = ProceduralEntity::new(10);
    for x in 1..9 {
        entity.voxel_field[index(10, x, 5, 5)] = stone(500);
    }
    let before = entity.voxel_field.clone();
    let pieces = entity.carve(WorldCoords::new(4500, 5500, 5500), 600, 0);
    assert_eq!(entity.voxel_field, before);
    assert_eq!(entity.modification_count, 0);
    assert_eq!(pieces.len(), 1);
    assert_eq!(active_count(&pieces[0]), 8);
}

#[test]
fn two_blocks_are_two_regions() {
    let mut entity = ProceduralEntity::new(8);
    block(&mut entity, 1, 1, 1, 700);
    block(&mut entity, 4, 4, 4, 300);
    entity.modification_count = 3;
    entity.modification_threshold = 50;
    let pieces = entity.extract_regions();
    assert_eq!(pieces.len(), 2);
    for piece in pieces.iter() {
        assert_eq!(active_count(piece), 8);
        assert_eq!(piece.field_size, 8);
        assert_eq!(piece.voxel_field.len(), 512);
        assert_eq!(piece.modification_count, 3);
        assert_eq!(piece.modification_threshold, 50);
        assert!(piece.vertices.is_empty());
    }
    assert_eq!(pieces[0].voxel_field[index(8, 1, 1, 1)], stone(700));
    assert_eq!(pieces[0].voxel_field[index(8, 4, 4, 4)].value, -100);
    assert_eq!(pieces[1].voxel_field[index(8, 4, 4, 4)], stone(300));
    assert_eq!(pieces[1].voxel_field[index(8, 1, 1, 1)].value, -100);
}

#[test]
fn blocks_that_touch_only_at_an_edge_are_two_regions() {
    let mut entity = ProceduralEntity::new(8);
    block(&mut entity, 1, 1, 1, 700);
    block(&mut entity, 3, 3, 1, 300);
    assert_eq!(entity.extract_regions().len(), 2);
    let mut corner = ProceduralEntity::new(8);
    block(&mut corner, 1, 1, 1, 700);
    block(&mut corner, 3, 3, 3, 300);
    assert_eq!(corner.extract_regions().len(), 2);
}

#[test]
fn blocks_that_share_a_face_are_one_region() {
    let mut entity = ProceduralEntity::new(8);
    block(&mut entity, 1, 1, 1, 700);
    block(&mut entity, 3, 1, 1, 300);
    let pieces = entity.extract_regions();
    assert_eq!(pieces.len(), 1);
    assert_eq!(active_count(&pieces[0]), 16);
    assert_eq!(pieces[0].voxel_field, entity.voxel_field);
}

#[test]
fn an_isolated_voxel_is_noise() {
    let mut entity = ProceduralEntity::new(6);
    entity.voxel_field[index(6, 2, 2, 2)] = stone(900);
    assert!(entity.extract_regions().is_empty());
    let pieces = entity.carve(WorldCoords::new(5500, 5500, 5500), 200, 1);
    assert!(pieces.is_empty());
    assert_eq!(entity.voxel_field[index(6, 2, 2, 2)], stone(900));
}

#[test]
fn noise_beside_a_region_is_dropped() {
    let mut entity = ProceduralEntity::new(8);
    entity.voxel_field[index(8, 0, 0, 0)] = stone(900);
    block(&mut entity, 3, 3, 3, 400);
    entity.voxel_field[index(8, 7, 7, 7)] = stone(900);
    let pieces = entity.extract_regions();
    assert_eq!(pieces.len(), 1);
    assert_eq!(active_count(&pieces[0]), 8);
    assert_eq!(pieces[0].voxel_field[index(8, 0, 0, 0)].value, -100);
    assert_eq!(pieces[0].voxel_field[index(8, 7, 7, 7)].value, -100);
}

#[test]
fn a_field_without_active_voxels_has_no_regions() {
    let entity = ProceduralEntity::new(5);
    assert!(entity.extract_regions().is_empty());
}

#[test]
fn regions_are_empty_outside_their_component() {
    let mut entity = ProceduralEntity::new(6);
    entity.voxel_field[index(6, 1, 1, 1)] = stone(10);
    entity.voxel_field[index(6, 1, 1, 2)] = stone(20);
    entity.voxel_field[index(6, 4, 4, 4)] = stone(-345);
    entity.voxel_field[index(6, 5, 5, 5)] = stone(0);
    entity.voxel_field[index(6, 3, 0, 0)] = stone(1);
    let pieces = entity.extract_regions();
    assert_eq!(pieces.len(), 1);
    let field = &pieces[0].voxel_field;
    assert_eq!(field[index(6, 1, 1, 1)], stone(10));
    assert_eq!(field[index(6, 1, 1, 2)], stone(20));
    assert_eq!(field[index(6, 4, 4, 4)], Voxel::empty());
    assert_eq!(field[index(6, 5, 5, 5)], Voxel::empty());
    assert_eq!(field[index(6, 3, 0, 0)], Voxel { value: -100, material: VoxelMaterial::AIR });
    assert_eq!(field[index(6, 0, 0, 0)], Voxel::empty());
    assert_eq!(active_count(&pieces[0]), 2);
}

#[test]
fn regions_come_in_the_order_of_their_first_voxels() {
    let mut entity = ProceduralEntity::new(8);
    block(&mut entity, 5, 0, 0, 3);
    block(&mut entity, 0, 5, 5, 1);
    block(&mut entity, 2, 2, 0, 2);
    let pieces = entity.extract_regions();
    assert_eq!(pieces.len(), 3);
    assert_eq!(pieces[0].voxel_field[index(8, 0, 5, 5)].value, 1);
    assert_eq!(pieces[1].voxel_field[index(8, 2, 2, 0)].value, 2);
    assert_eq!(pieces[2].voxel_field[index(8, 5, 0, 0)].value, 3);
}

#[test]
fn a_winding_region_is_found_whole() {
    let mut entity = ProceduralEntity::new(5);
    let path = [
        (0, 0, 0),
        (1, 0, 0),
        (2, 0, 0),
        (2, 1, 0),
        (2, 2, 0),
        (2, 2, 1),
        (2, 2, 2),
        (1, 2, 2),
        (0, 2, 2),
        (0, 3, 2),
        (0, 4, 2),
        (0, 4, 3),
        (0, 4, 4),
    ];
    for &(x, y, z) in path.iter() {
        entity.voxel_field[index(5, x, y, z)] = stone(1);
    }
    let pieces = entity.extract_regions();
    assert_eq!(pieces.len(), 1);
    assert_eq!(active_count(&pieces[0]), path.len());
}

#[test]
fn neighbours_across_the_six_faces() {
    let entity = ProceduralEntity::new(4);
    let here = index(4, 1, 2, 3);
    assert_eq!(entity.neighbor(here, 0), Some(index(4, 2, 2, 3)));
    assert_eq!(entity.neighbor(here, 1), Some(index(4, 0, 2, 3)));
    assert_eq!(entity.neighbor(here, 2), Some(index(4, 1, 3, 3)));
    assert_eq!(entity.neighbor(here, 3), Some(index(4, 1, 1, 3)));
    assert_eq!(entity.neighbor(here, 4), None);
    assert_eq!(entity.neighbor(here, 5), Some(index(4, 1, 2, 2)));
    assert_eq!(entity.neighbor(0, 1), None);
    assert_eq!(entity.neighbor(0, 3), None);
    assert_eq!(entity.neighbor(0, 5), None);
    assert_eq!(entity.neighbor(63, 0), None);
    assert_eq!(entity.neighbor(3, 4), None);
}

#[test]
fn flood_fill_collects_one_component() {
    let mut entity = ProceduralEntity::new(6);
    block(&mut entity, 0, 0, 0, 5);
    block(&mut entity, 3, 3, 3, 6);
    let total = entity.voxel_field.len();
    let mut visited = vec![false; total];
    let mut region = vec![Voxel::empty(); total];
    let mut count = 10usize;
    entity.flood_fill_collect(index(6, 4, 4, 4), &mut visited, &mut region, &mut count);
    assert_eq!(count, 18);
    for i in 0..total {
        let inside = entity.voxel_field[i].value == 6;
        assert_eq!(visited[i], inside);
        assert_eq!(region[i], if inside { stone(6) } else { Voxel::empty() });
    }
}
