use voxel_entity::common::coords::{VoxelCoords, WorldCoords};
use voxel_entity::common::voxel_material::VoxelMaterial;
use voxel_entity::common::voxels::Voxel;
use voxel_entity::entity_deform::{
    deform_entity, CARVE_RADIUS, CARVE_SPEED, FILL_RADIUS, FILL_SPEED,
};
use voxel_entity::procedural_entity::deform::voxel_of_hit;
use voxel_entity::procedural_entity::ProceduralEntity;

fn stone(value: i32) -> Voxel {
    Voxel { value, material: VoxelMaterial::STONE }
}

fn at(entity: &ProceduralEntity, x: usize, y: usize, z: usize) -> Voxel {
    let n = entity.field_size;
    entity.voxel_field[z + y * n + x * n * n]
}

fn solid_cube(size: usize, value: i32) -> ProceduralEntity {
    let mut entity = ProceduralEntity::new(size);
    for v in entity.voxel_field.iter_mut() {
        *v = stone(value);
    }
    entity
}

fn cheb(a: (usize, usize, usize), b: (i64, i64, i64)) -> i64 {
    let dx = (a.0 as i64 - b.0).abs();
    let dy = (a.1 as i64 - b.1).abs();
    let dz = (a.2 as i64 - b.2).abs();
    dx.max(dy).max(dz)
}

#[test]
fn hit_point_is_cut_to_its_voxel() {
    assert_eq!(voxel_of_hit(WorldCoords::new(0, 999, 1000)), VoxelCoords::new(0, 0, 1));
    assert_eq!(voxel_of_hit(WorldCoords::new(4500, 5999, 12001)), VoxelCoords::new(4, 5, 12));
    assert_eq!(voxel_of_hit(WorldCoords::new(-1, -1000, -5000)), VoxelCoords::new(0, 0, 0));
    assert_eq!(voxel_of_hit(WorldCoords::new(255999, 256000, 999999)), VoxelCoords::new(255, 255, 255));
    assert_eq!(voxel_of_hit(WorldCoords::new(i64::MIN, i64::MAX, 0)), VoxelCoords::new(0, 255, 0));
}

#[test]
fn carve_lowers_the_cubic_neighbourhood() {
    let mut entity = solid_cube(7, 1000);
    let pieces = entity.carve(WorldCoords::new(3200, 3900, 3000), 250, 2);
    let mut touched = 0;
    for x in 0..7 {
        for y in 0..7 {
            for z in 0..7 {
                let inside = cheb((x, y, z), (3, 3, 3)) < 2;
                let expected = if inside { 750 } else { 1000 };
                assert_eq!(at(&entity, x, y, z), stone(expected));
                touched += inside as u32;
            }
        }
    }
    assert_eq!(touched, 27);
    assert_eq!(entity.modification_count, 27);
    assert_eq!(entity.field_size, 7);
    assert_eq!(pieces.len(), 1);
    assert_eq!(pieces[0].voxel_field, entity.voxel_field);
    assert_eq!(pieces[0].modification_count, 27);
}

#[test]
fn carve_skips_positions_outside_the_field() {
    let mut entity = solid_cube(4, 100);
    entity.carve(WorldCoords::new(0, 0, 3500), 150, 2);
    let mut touched = 0;
    for x in 0..4 {
        for y in 0..4 {
            for z in 0..4 {
                let inside = cheb((x, y, z), (0, 0, 3)) < 2;
                assert_eq!(at(&entity, x, y, z).value, if inside { -50 } else { 100 });
                touched += inside as u32;
            }
        }
    }
    assert_eq!(touched, 8);
    assert_eq!(entity.modification_count, 8);
    assert_eq!(entity.field_size, 4);
}

#[test]
fn carve_has_no_lower_bound_but_that_of_the_number() {
    let mut entity = solid_cube(3, -5000);
    entity.carve(WorldCoords::new(1500, 1500, 1500), 20000, 1);
    assert_eq!(at(&entity, 1, 1, 1).value, -25000);
    entity.carve(WorldCoords::new(1500, 1500, 1500), i32::MAX, 1);
    entity.carve(WorldCoords::new(1500, 1500, 1500), i32::MAX, 1);
    assert_eq!(at(&entity, 1, 1, 1).value, i32::MIN);
    assert_eq!(at(&entity, 0, 1, 1).value, -5000);
}

#[test]
fn carve_with_a_negative_speed_raises() {
    let mut entity = solid_cube(3, 0);
    entity.carve(WorldCoords::new(1500, 1500, 1500), i32::MIN, 1);
    assert_eq!(at(&entity, 1, 1, 1).value, i32::MAX);
    entity.carve(WorldCoords::new(0, 0, 0), -5, 1);
    assert_eq!(at(&entity, 0, 0, 0).value, 5);
}

#[test]
fn carve_with_a_huge_radius_touches_the_whole_field() {
    let mut entity = solid_cube(3, 10);
    let pieces = entity.carve(WorldCoords::new(0, 0, 0), 11, usize::MAX);
    assert!(entity.voxel_field.iter().all(|v| v.value == -1));
    assert_eq!(entity.modification_count, 27);
    assert!(pieces.is_empty());
}

#[test]
fn modification_count_stops_at_its_largest_value() {
    let mut entity = solid_cube(3, 10);
    entity.modification_count = u32::MAX - 5;
    entity.carve(WorldCoords::new(1000, 1000, 1000), 1, 2);
    assert_eq!(entity.modification_count, u32::MAX);
}

#[test]
fn fill_raises_and_caps_at_one() {
    let mut entity = ProceduralEntity::new(7);
    entity.voxel_field[3 + 3 * 7 + 3 * 49] = stone(900);
    entity.modification_count = 5;
    let pieces = entity.fill(WorldCoords::new(3000, 3000, 3000), 300, 2);
    assert_eq!(entity.field_size, 7);
    for x in 0..7 {
        for y in 0..7 {
            for z in 0..7 {
                let inside = cheb((x, y, z), (3, 3, 3)) < 2;
                let expected = if (x, y, z) == (3, 3, 3) {
                    stone(1000)
                } else if inside {
                    Voxel::from(-700)
                } else {
                    Voxel::empty()
                };
                assert_eq!(at(&entity, x, y, z), expected);
            }
        }
    }
    assert_eq!(entity.modification_count, 5);
    assert_eq!(pieces.len(), 1);
    assert_eq!(pieces[0].voxel_field, entity.voxel_field);
    assert_eq!(pieces[0].field_size, 7);
    assert_eq!(pieces[0].modification_count, 5);
}

#[test]
fn fill_lowers_a_density_above_one_to_one() {
    let mut entity = solid_cube(3, 14000);
    entity.fill(WorldCoords::new(1000, 1000, 1000), 1, 1);
    assert_eq!(at(&entity, 1, 1, 1).value, 1000);
    assert_eq!(at(&entity, 0, 1, 1).value, 14000);
}

#[test]
fn fill_never_shrinks_and_never_splits() {
    let mut entity = ProceduralEntity::new(9);
    entity.voxel_field[4 + 4 * 9 + 4 * 81] = stone(100);
    entity.voxel_field[8 + 8 * 9 + 8 * 81] = stone(100);
    for (hit, radius) in [
        (WorldCoords::new(4000, 4000, 4000), 1usize),
        (WorldCoords::new(0, 0, 0), 3),
        (WorldCoords::new(8000, 8000, 8000), 2),
        (WorldCoords::new(100000, 0, 0), 0),
        (WorldCoords::new(20000, 3000, 3000), 2),
    ] {
        let before = entity.field_size;
        let pieces = entity.fill(hit, 50, radius);
        assert_eq!(pieces.len(), 1);
        assert!(entity.field_size >= before);
        assert_eq!(pieces[0].field_size, entity.field_size);
        assert_eq!(pieces[0].voxel_field, entity.voxel_field);
    }
}

#[test]
fn fill_grows_the_field_before_it_writes() {
    let mut entity = ProceduralEntity::new(5);
    entity.voxel_field[2 + 2 * 5 + 2 * 25] = stone(100);
    entity.fill(WorldCoords::new(4500, 2500, 2500), 1500, 2);
    // the neighbourhood spans 3..=5 along x: with the active voxel at 2 the
    // box is 2..=5 by 1..=3 by 1..=3, so the field grows to 3 + 3 = 6
    assert_eq!(entity.field_size, 6);
    assert_eq!(at(&entity, 2, 2, 2), stone(100));
    for x in 0..6 {
        for y in 0..6 {
            for z in 0..6 {
                if (x, y, z) == (2, 2, 2) {
                    continue;
                }
                let inside = cheb((x, y, z), (4, 2, 2)) < 2;
                assert_eq!(at(&entity, x, y, z).value, if inside { 500 } else { -1000 });
            }
        }
    }
}

#[test]
fn fill_skips_what_growth_cannot_reach() {
    let mut entity = ProceduralEntity::new(4);
    let pieces = entity.fill(WorldCoords::new(0, 0, 0), 2000, 2);
    // the neighbourhood spans -1..=1; the box 0..=3 of the empty field with
    // its padding asks for 6
    assert_eq!(entity.field_size, 6);
    let mut filled = 0;
    for x in 0..6 {
        for y in 0..6 {
            for z in 0..6 {
                let inside = x < 2 && y < 2 && z < 2;
                assert_eq!(at(&entity, x, y, z).value, if inside { 1000 } else { -1000 });
                filled += inside as u32;
            }
        }
    }
    assert_eq!(filled, 8);
    assert_eq!(pieces.len(), 1);
}

#[test]
fn fill_of_no_shell_changes_nothing() {
    let mut entity = solid_cube(3, -10);
    let before = entity.voxel_field.clone();
    let pieces = entity.fill(WorldCoords::new(90000, 0, 0), 100, 0);
    assert_eq!(entity.field_size, 3);
    assert_eq!(entity.voxel_field, before);
    assert_eq!(pieces.len(), 1);
}

#[test]
fn shift_neighborhood_counts_what_it_touches() {
    let mut entity = solid_cube(5, 0);
    assert_eq!(entity.shift_neighborhood(VoxelCoords::new(2, 2, 2), 1, 7, 100), 1);
    assert_eq!(entity.shift_neighborhood(VoxelCoords::new(2, 2, 2), 2, 7, 100), 27);
    assert_eq!(entity.shift_neighborhood(VoxelCoords::new(2, 2, 2), 3, 7, 100), 125);
    assert_eq!(entity.shift_neighborhood(VoxelCoords::new(0, 4, 2), 2, 7, 100), 12);
    assert_eq!(entity.shift_neighborhood(VoxelCoords::new(200, 200, 200), 2, 7, 100), 0);
    assert_eq!(entity.shift_neighborhood(VoxelCoords::new(2, 2, 2), 0, 7, 100), 0);
    assert_eq!(at(&entity, 2, 2, 2).value, 21);
    assert_eq!(at(&entity, 1, 2, 2).value, 14);
    assert_eq!(at(&entity, 0, 4, 2).value, 14);
    assert_eq!(at(&entity, 4, 0, 0).value, 7);
    assert_eq!(entity.shift_neighborhood(VoxelCoords::new(2, 2, 2), 1, 90, 100), 1);
    assert_eq!(at(&entity, 2, 2, 2).value, 100);
}

#[test]
fn finish_regenerates_the_vertices() {
    let mut entity = ProceduralEntity::new(8);
    entity.voxel_field[3 + 3 * 8 + 3 * 64] = stone(1000);
    entity.modification_count = 19;
    entity.finish_deformation();
    assert_eq!(entity.field_size, 8);
    assert_eq!(entity.modification_count, 19);
    assert_eq!(entity.vertices.len(), 24);
}

#[test]
fn finish_crops_once_the_threshold_is_reached() {
    let mut entity = ProceduralEntity::new(8);
    entity.voxel_field[3 + 3 * 8 + 3 * 64] = stone(1000);
    entity.modification_count = 20;
    entity.finish_deformation();
    assert_eq!(entity.field_size, 3);
    assert_eq!(entity.modification_count, 0);
    assert_eq!(entity.modification_threshold, 20);
    assert_eq!(entity.vertices.len(), 24);
    assert!(entity.vertices.iter().all(|v| {
        (0..=2000).contains(&v.pos.x.0) && (0..=2000).contains(&v.pos.y.0)
    }));
}

#[test]
fn the_speeds_and_radii_of_a_hit() {
    assert_eq!(CARVE_SPEED, 200);
    assert_eq!(CARVE_RADIUS, 2);
    assert_eq!(FILL_SPEED, 300);
    assert_eq!(FILL_RADIUS, 2);
}

#[test]
fn a_carving_hit_splits_and_finishes() {
    let mut entity = ProceduralEntity::new(12);
    for x in 1..11 {
        entity.voxel_field[5 + 5 * 12 + x * 144] = stone(100);
    }
    let pieces = deform_entity(&mut entity, WorldCoords::new(5500, 5500, 5500), false);
    assert_eq!(entity.modification_count, 27);
    for x in 1..11 {
        let expected = if (4..=6).contains(&x) { -100 } else { 100 };
        assert_eq!(at(&entity, x, 5, 5).value, expected);
    }
    assert_eq!(pieces.len(), 2);
    // 27 modifications reach the threshold of 20: both pieces are cropped
    assert_eq!(pieces[0].field_size, 5);
    assert_eq!(pieces[1].field_size, 6);
    for piece in pieces.iter() {
        assert_eq!(piece.modification_count, 0);
        assert!(!piece.vertices.is_empty());
        assert_eq!(piece.vertices.len() % 3, 0);
    }
    assert_eq!(at(&pieces[0], 1, 1, 1), stone(100));
    assert_eq!(at(&pieces[0], 3, 1, 1), stone(100));
    assert_eq!(at(&pieces[1], 4, 1, 1), stone(100));
}

#[test]
fn a_filling_hit_returns_one_finished_entity() {
    let mut entity = ProceduralEntity::new(6);
    let pieces = deform_entity(&mut entity, WorldCoords::new(2500, 2500, 2500), true);
    assert_eq!(pieces.len(), 1);
    assert_eq!(entity.field_size, 6);
    assert_eq!(at(&entity, 2, 2, 2).value, -700);
    assert_eq!(pieces[0].voxel_field, entity.voxel_field);
    assert!(pieces[0].vertices.is_empty());
    for _ in 0..3 {
        deform_entity(&mut entity, WorldCoords::new(2500, 2500, 2500), true);
    }
    assert_eq!(at(&entity, 2, 2, 2).value, 200);
    let pieces = deform_entity(&mut entity, WorldCoords::new(2500, 2500, 2500), true);
    assert_eq!(at(&entity, 2, 2, 2).value, 500);
    assert_eq!(pieces[0].vertices.len() % 3, 0);
    assert!(!pieces[0].vertices.is_empty());
}
