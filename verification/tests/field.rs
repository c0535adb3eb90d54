use voxel_entity::common::coords::VoxelCoords;
use voxel_entity::common::voxel_material::VoxelMaterial;
use voxel_entity::common::voxels::Voxel;
use voxel_entity::procedural_entity::{new_empty_field, ProceduralEntity};

fn stone(value: i32) -> Voxel {
    Voxel { value, material: VoxelMaterial::STONE }
}

fn at(entity: &ProceduralEntity, x: usize, y: usize, z: usize) -> Voxel {
    let n = entity.field_size;
    entity.voxel_field[z + y * n + x * n * n]
}

fn put(entity: &mut ProceduralEntity, x: usize, y: usize, z: usize, voxel: Voxel) {
    let n = entity.field_size;
    entity.voxel_field[z + y * n + x * n * n] = voxel;
}

fn active_count(entity: &ProceduralEntity) -> usize {
    entity.voxel_field.iter().filter(|v| v.value >= 0).count()
}

#[test]
fn default_voxel_and_empty_voxel() {
    assert_eq!(Voxel::default(), Voxel { value: 0, material: VoxelMaterial::AIR });
    assert_eq!(Voxel::empty(), Voxel { value: -1000, material: VoxelMaterial::AIR });
    assert_eq!(Voxel::from(42), Voxel { value: 42, material: VoxelMaterial::AIR });
    assert!(Voxel::default().is_active());
    assert!(!Voxel::empty().is_active());
    assert!(!Voxel::from(-1).is_active());
}

#[test]
fn new_entity_is_empty() {
    let entity = ProceduralEntity::new(4);
    assert_eq!(entity.field_size, 4);
    assert_eq!(entity.voxel_field.len(), 64);
    assert!(entity.voxel_field.iter().all(|v| *v == Voxel::empty()));
    assert!(entity.vertices.is_empty());
    assert_eq!(entity.modification_count, 0);
    assert_eq!(entity.modification_threshold, 20);
    assert_eq!(new_empty_field(0).len(), 0);
    assert_eq!(new_empty_field(3).len(), 27);
}

#[test]
fn bounds_of_a_field_without_active_voxels_are_the_field() {
    let entity = ProceduralEntity::new(7);
    assert_eq!(entity.active_bounds(), (VoxelCoords::new(0, 0, 0), VoxelCoords::new(6, 6, 6)));
}

#[test]
fn bounds_enclose_the_active_voxels() {
    let mut entity = ProceduralEntity::new(10);
    put(&mut entity, 2, 5, 7, stone(0));
    put(&mut entity, 4, 3, 8, stone(10));
    put(&mut entity, 3, 9, 1, stone(1000));
    put(&mut entity, 9, 0, 0, stone(-1));
    assert_eq!(entity.active_bounds(), (VoxelCoords::new(2, 3, 1), VoxelCoords::new(4, 9, 8)));
}

#[test]
fn crop_moves_the_box_to_one_one_one() {
    let mut entity = ProceduralEntity::new(12);
    put(&mut entity, 4, 5, 6, stone(100));
    put(&mut entity, 5, 5, 6, stone(200));
    put(&mut entity, 6, 6, 6, stone(300));
    put(&mut entity, 3, 5, 6, stone(-7));
    entity.modification_count = 9;
    entity.minimize_field_size();
    assert_eq!(entity.field_size, 5);
    assert_eq!(entity.voxel_field.len(), 125);
    assert_eq!(at(&entity, 1, 1, 1), stone(100));
    assert_eq!(at(&entity, 2, 1, 1), stone(200));
    assert_eq!(at(&entity, 3, 2, 1), stone(300));
    assert_eq!(at(&entity, 0, 1, 1), stone(-7));
    assert_eq!(active_count(&entity), 3);
    assert_eq!(entity.modification_count, 9);
}

#[test]
fn crop_pads_with_empty_voxels_beyond_the_old_field() {
    let mut entity = ProceduralEntity::new(8);
    put(&mut entity, 0, 0, 0, stone(5));
    put(&mut entity, 1, 0, 0, stone(6));
    entity.minimize_field_size();
    assert_eq!(entity.field_size, 4);
    assert_eq!(at(&entity, 1, 1, 1), stone(5));
    assert_eq!(at(&entity, 2, 1, 1), stone(6));
    assert_eq!(at(&entity, 0, 0, 0), Voxel::empty());
    assert_eq!(at(&entity, 0, 1, 1), Voxel::empty());
    assert_eq!(active_count(&entity), 2);
}

#[test]
fn crop_is_idempotent() {
    let mut entity = ProceduralEntity::new(16);
    put(&mut entity, 3, 4, 5, stone(1));
    put(&mut entity, 9, 4, 5, stone(1));
    put(&mut entity, 5, 6, 12, stone(1));
    entity.minimize_field_size();
    assert_eq!(entity.field_size, 10);
    let once = entity.voxel_field.clone();
    entity.minimize_field_size();
    assert_eq!(entity.field_size, 10);
    assert_eq!(entity.voxel_field, once);
}

#[test]
fn crop_leaves_a_field_without_active_voxels_alone() {
    let mut entity = ProceduralEntity::new(6);
    put(&mut entity, 2, 2, 2, stone(-3));
    let before = entity.voxel_field.clone();
    entity.minimize_field_size();
    assert_eq!(entity.field_size, 6);
    assert_eq!(entity.voxel_field, before);
}

#[test]
fn crop_leaves_a_full_field_alone() {
    let mut entity = ProceduralEntity::new(5);
    put(&mut entity, 0, 0, 0, stone(1));
    put(&mut entity, 4, 4, 4, stone(1));
    let before = entity.voxel_field.clone();
    entity.minimize_field_size();
    assert_eq!(entity.field_size, 5);
    assert_eq!(entity.voxel_field, before);
    let mut tight = ProceduralEntity::new(5);
    put(&mut tight, 1, 1, 1, stone(1));
    put(&mut tight, 3, 1, 1, stone(1));
    tight.minimize_field_size();
    assert_eq!(tight.field_size, 5);
}

#[test]
fn crop_of_one_voxel_gives_the_smallest_field() {
    let mut entity = ProceduralEntity::new(9);
    put(&mut entity, 8, 0, 4, stone(77));
    entity.minimize_field_size();
    assert_eq!(entity.field_size, 3);
    assert_eq!(at(&entity, 1, 1, 1), stone(77));
    assert_eq!(active_count(&entity), 1);
}

#[test]
fn rebuild_field_shifts_by_the_given_corner() {
    let mut entity = ProceduralEntity::new(4);
    for (i, v) in entity.voxel_field.iter_mut().enumerate() {
        *v = stone(i as i32);
    }
    entity.rebuild_field(VoxelCoords::new(2, 1, 3), 3);
    assert_eq!(entity.field_size, 3);
    for x in 0..3usize {
        for y in 0..3usize {
            for z in 0..3usize {
                let (ox, oy, oz) = (x + 1, y, z + 2);
                let expected = if ox < 4 && oy < 4 && oz < 4 {
                    stone((oz + oy * 4 + ox * 16) as i32)
                } else {
                    Voxel::empty()
                };
                assert_eq!(at(&entity, x, y, z), expected, "{} {} {}", x, y, z);
            }
        }
    }
}

#[test]
fn grow_keeps_every_voxel_where_it_is() {
    let mut entity = ProceduralEntity::new(4);
    put(&mut entity, 0, 0, 0, stone(1));
    put(&mut entity, 3, 3, 3, stone(2));
    put(&mut entity, 1, 2, 3, stone(-5));
    entity.increase_field_size();
    assert_eq!(entity.field_size, 6);
    assert_eq!(at(&entity, 0, 0, 0), stone(1));
    assert_eq!(at(&entity, 3, 3, 3), stone(2));
    assert_eq!(at(&entity, 1, 2, 3), stone(-5));
    assert_eq!(at(&entity, 4, 0, 0), Voxel::empty());
    assert_eq!(at(&entity, 5, 5, 5), Voxel::empty());
    assert_eq!(active_count(&entity), 2);
}

#[test]
fn grow_does_nothing_where_the_padding_fits() {
    let mut entity = ProceduralEntity::new(6);
    put(&mut entity, 1, 1, 1, stone(1));
    put(&mut entity, 4, 1, 1, stone(1));
    let before = entity.voxel_field.clone();
    entity.increase_field_size();
    assert_eq!(entity.field_size, 6);
    assert_eq!(entity.voxel_field, before);
}

#[test]
fn grow_of_a_field_without_active_voxels_adds_the_padding() {
    let mut entity = ProceduralEntity::new(3);
    entity.increase_field_size();
    assert_eq!(entity.field_size, 5);
    assert!(entity.voxel_field.iter().all(|v| *v == Voxel::empty()));
}

#[test]
fn grow_to_include_takes_the_touched_box_in() {
    let mut entity = ProceduralEntity::new(5);
    put(&mut entity, 2, 2, 2, stone(9));
    entity.grow_to_include(VoxelCoords::new(1, 1, 1), VoxelCoords::new(7, 3, 3));
    assert_eq!(entity.field_size, 9);
    assert_eq!(at(&entity, 2, 2, 2), stone(9));
    assert_eq!(active_count(&entity), 1);
    entity.grow_to_include(VoxelCoords::new(2, 2, 2), VoxelCoords::new(3, 3, 3));
    assert_eq!(entity.field_size, 9);
}

#[test]
fn grow_stops_at_the_largest_field() {
    let mut entity = ProceduralEntity::new(3);
    put(&mut entity, 1, 1, 1, stone(9));
    entity.grow_to_include(VoxelCoords::new(0, 0, 0), VoxelCoords::new(255, 0, 0));
    assert_eq!(entity.field_size, 256);
    assert_eq!(entity.voxel_field.len(), 256 * 256 * 256);
    assert_eq!(at(&entity, 1, 1, 1), stone(9));
    assert_eq!(at(&entity, 255, 255, 255), Voxel::empty());
}

#[test]
fn clone_copies_everything() {
    let mut entity = ProceduralEntity::new(3);
    put(&mut entity, 1, 1, 1, stone(500));
    entity.modification_count = 4;
    entity.modification_threshold = 11;
    entity.generate_vertices();
    let copy = entity.clone();
    assert_eq!(copy.field_size, 3);
    assert_eq!(copy.voxel_field, entity.voxel_field);
    assert_eq!(copy.vertices, entity.vertices);
    assert_eq!(copy.vertices.len(), 24);
    assert_eq!(copy.modification_count, 4);
    assert_eq!(copy.modification_threshold, 11);
}
