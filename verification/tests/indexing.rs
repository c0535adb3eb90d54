use voxel_entity::common::coords::VoxelCoords;
use voxel_entity::common::indexing::{delinearize, linearize};
use voxel_entity::procedural_entity::ProceduralEntity;

#[test]
fn index_round_trip_from_indices() {
    for size in [1usize, 2, 3, 7, 10] {
        for index in 0..size * size * size {
            let pos = delinearize(size, index);
            assert!((pos.x as usize) < size && (pos.y as usize) < size && (pos.z as usize) < size);
            assert_eq!(linearize(size, pos), Some(index));
        }
    }
}

#[test]
fn index_round_trip_from_coordinates() {
    let size = 6usize;
    for x in 0..6u8 {
        for y in 0..6u8 {
            for z in 0..6u8 {
                let index = linearize(size, VoxelCoords::new(x, y, z)).unwrap();
                assert_eq!(index, z as usize + y as usize * 6 + x as usize * 36);
                assert_eq!(delinearize(size, index), VoxelCoords::new(x, y, z));
            }
        }
    }
}

#[test]
fn linearize_is_x_major() {
    assert_eq!(linearize(10, VoxelCoords::new(0, 0, 1)), Some(1));
    assert_eq!(linearize(10, VoxelCoords::new(0, 1, 0)), Some(10));
    assert_eq!(linearize(10, VoxelCoords::new(1, 0, 0)), Some(100));
    assert_eq!(linearize(10, VoxelCoords::new(9, 9, 9)), Some(999));
    assert_eq!(linearize(256, VoxelCoords::new(255, 255, 255)), Some(16777215));
}

#[test]
fn linearize_rejects_coordinates_outside_the_field() {
    assert_eq!(linearize(10, VoxelCoords::new(10, 0, 0)), None);
    assert_eq!(linearize(10, VoxelCoords::new(0, 10, 0)), None);
    assert_eq!(linearize(10, VoxelCoords::new(0, 0, 10)), None);
    assert_eq!(linearize(10, VoxelCoords::new(255, 255, 255)), None);
    assert_eq!(linearize(0, VoxelCoords::new(0, 0, 0)), None);
}

#[test]
fn delinearize_of_the_largest_field() {
    assert_eq!(delinearize(256, 16777215), VoxelCoords::new(255, 255, 255));
    assert_eq!(delinearize(256, 65536), VoxelCoords::new(1, 0, 0));
    assert_eq!(delinearize(256, 65535), VoxelCoords::new(0, 255, 255));
}

#[test]
fn entity_index_to_coords() {
    let entity = ProceduralEntity::new(5);
    assert_eq!(entity.index_to_coords(0), VoxelCoords::new(0, 0, 0));
    assert_eq!(entity.index_to_coords(4), VoxelCoords::new(0, 0, 4));
    assert_eq!(entity.index_to_coords(5), VoxelCoords::new(0, 1, 0));
    assert_eq!(entity.index_to_coords(25), VoxelCoords::new(1, 0, 0));
    assert_eq!(entity.index_to_coords(124), VoxelCoords::new(4, 4, 4));
}
