use voxel_entity::common::constants::{
    CHUNK_AREA, CHUNK_SIZE, CHUNK_VAREA, CHUNK_VSIZE, CHUNK_VVOLUME, EMPTY_VALUE, FOREIGN_VALUE,
    FULL_VALUE, HALF, MAX_FIELD_SIZE, SCALE,
};
use voxel_entity::common::coords::{
    ChunkCoords, Coords, Coords2D, Fixed, ICoords, VoxelCoords, VoxelCoords2D, WorldCoords,
};
use voxel_entity::common::coords_iterators::{neighbors_in_expanding_shells, AroundCoordsIterator};
use voxel_entity::common::coords_neighbours::HasNeighbours;
use voxel_entity::common::coords_neighbours_iter::CoordsNeighboursIter;
use voxel_entity::common::math::{div_toward_zero, isqrt};

fn shell(center: ChunkCoords, pos: ChunkCoords) -> i64 {
    let dx = (pos.x - center.x).abs();
    let dy = (pos.y - center.y).abs();
    let dz = (pos.z - center.z).abs();
    dx.max(dy).max(dz)
}

#[test]
fn constants_of_chunks_and_numbers() {
    assert_eq!(CHUNK_SIZE, 32);
    assert_eq!(CHUNK_AREA, 1024);
    assert_eq!(CHUNK_VSIZE, 33);
    assert_eq!(CHUNK_VAREA, 1089);
    assert_eq!(CHUNK_VVOLUME, 35937);
    assert_eq!(SCALE, 1000);
    assert_eq!(HALF, 500);
    assert_eq!(MAX_FIELD_SIZE, 256);
    assert_eq!(EMPTY_VALUE, -1000);
    assert_eq!(FULL_VALUE, 1000);
    assert_eq!(FOREIGN_VALUE, -100);
}

#[test]
fn integer_square_root() {
    for (n, root) in [
        (0u64, 0u64),
        (1, 1),
        (2, 1),
        (3, 1),
        (4, 2),
        (8, 2),
        (9, 3),
        (99, 9),
        (100, 10),
        (1_000_000, 1000),
        (3_000_000, 1732),
        (187_500_000_000, 433_012),
        (u64::MAX, 0xffff_ffff),
        (0xffff_fffe_0000_0001, 0xffff_ffff),
        (0xffff_fffe_0000_0000, 0xffff_fffe),
    ] {
        assert_eq!(isqrt(n), root, "isqrt({})", n);
    }
}

#[test]
fn division_rounds_toward_zero() {
    assert_eq!(div_toward_zero(7, 2), 3);
    assert_eq!(div_toward_zero(-7, 2), -3);
    assert_eq!(div_toward_zero(-1, 1000), 0);
    assert_eq!(div_toward_zero(999, 1000), 0);
    assert_eq!(div_toward_zero(-3000, 1000), -3);
    assert_eq!(div_toward_zero(i64::MAX, 1), i64::MAX);
    assert_eq!(div_toward_zero(i64::MIN + 1, 1), i64::MIN + 1);
}

#[test]
fn cross_product_of_integers() {
    let x = ChunkCoords::new(1, 0, 0);
    let y = ChunkCoords::new(0, 1, 0);
    let z = ChunkCoords::new(0, 0, 1);
    assert_eq!(x.cross(y), z);
    assert_eq!(y.cross(z), x);
    assert_eq!(z.cross(x), y);
    assert_eq!(y.cross(x), ChunkCoords::new(0, 0, -1));
    assert_eq!(
        ChunkCoords::new(2, 3, 4).cross(ChunkCoords::new(5, 6, 7)),
        ChunkCoords::new(-3, 6, -3)
    );
    let big = ChunkCoords::new(0x4000_0000, -0x4000_0000, 0x4000_0000);
    assert_eq!(big.cross(big), ChunkCoords::new(0, 0, 0));
}

#[test]
fn sums_and_differences_of_coordinates() {
    assert_eq!(ChunkCoords::new(1, -2, 3) + ChunkCoords::new(10, 20, -30), ChunkCoords::new(11, 18, -27));
    assert_eq!(VoxelCoords::new(1, 2, 3) + VoxelCoords::new(0, 1, 1), VoxelCoords::new(1, 3, 4));
    assert_eq!(
        WorldCoords::new(1500, 0, -1) + WorldCoords::new(500, 1, 1),
        WorldCoords::new(2000, 1, 0)
    );
    assert_eq!(
        WorldCoords::new(1500, 0, -1) - WorldCoords::new(500, 1, 1),
        WorldCoords::new(1000, -1, -2)
    );
    let diff: ICoords = VoxelCoords::new(0, 255, 7) - VoxelCoords::new(255, 0, 7);
    assert_eq!(diff, Coords { x: -255, y: 255, z: 0 });
}

#[test]
fn world_coordinates_and_their_thousandths() {
    let pos = WorldCoords::new(1500, -250, 0);
    assert_eq!(pos.x, Fixed(1500));
    assert_eq!(pos.y.into_inner(), -250);
    assert_eq!(pos.into_inners(), Coords { x: 1500, y: -250, z: 0 });
    assert_eq!(pos.into_inners_arr(), [1500, -250, 0]);
}

#[test]
fn scaling_a_position() {
    assert_eq!(WorldCoords::new(2000, -3000, 1) * Fixed(500), WorldCoords::new(1000, -1500, 0));
    assert_eq!(WorldCoords::new(1999, -1999, 7) * Fixed(1000), WorldCoords::new(1999, -1999, 7));
    assert_eq!(WorldCoords::new(3, -3, 0) * Fixed(-500), WorldCoords::new(-1, 1, 0));
}

#[test]
fn position_of_a_voxel_of_a_chunk() {
    assert_eq!(
        WorldCoords::from_voxel(ChunkCoords::new(0, 0, 0), VoxelCoords::new(1, 2, 3)),
        WorldCoords::new(1000, 2000, 3000)
    );
    assert_eq!(
        WorldCoords::from_voxel(ChunkCoords::new(1, -1, 2), VoxelCoords::new(0, 31, 5)),
        WorldCoords::new(32000, -1000, 69000)
    );
}

#[test]
fn chunk_of_a_position() {
    assert_eq!(ChunkCoords::from_vec(WorldCoords::new(500, 31999, 32000)), ChunkCoords::new(0, 0, 1));
    assert_eq!(ChunkCoords::from_vec(WorldCoords::new(0, -1, -31999)), ChunkCoords::new(-1, -1, -1));
    assert_eq!(ChunkCoords::from_vec(WorldCoords::new(-32000, -64500, 100000)), ChunkCoords::new(-2, -3, 3));
}

#[test]
fn voxel_of_a_position_inside_its_chunk() {
    assert_eq!(VoxelCoords::from(WorldCoords::new(1500, 33999, 0)), VoxelCoords::new(1, 1, 0));
    assert_eq!(VoxelCoords::from(WorldCoords::new(-500, -1000, -33000)), VoxelCoords::new(0, 31, 31));
    assert_eq!(VoxelCoords::from(WorldCoords::new(i64::MAX, i64::MIN, 31999)), VoxelCoords::new(31, 0, 31));
    assert_eq!(
        VoxelCoords2D::from(WorldCoords::new(-500, 7, 64999)),
        Coords2D { x: 31, z: 0 }
    );
    assert_eq!(
        VoxelCoords2D::from(WorldCoords::new(-32000, 7, -32001)),
        Coords2D { x: 0, z: 31 }
    );
}

#[test]
fn indices_of_a_chunk() {
    assert_eq!(VoxelCoords::from(0usize), VoxelCoords::new(0, 0, 0));
    assert_eq!(VoxelCoords::from(32usize), VoxelCoords::new(0, 0, 32));
    assert_eq!(VoxelCoords::from(33usize), VoxelCoords::new(0, 1, 0));
    assert_eq!(VoxelCoords::from(1089usize), VoxelCoords::new(1, 0, 0));
    assert_eq!(VoxelCoords::from(35936usize), VoxelCoords::new(32, 32, 32));
    assert_eq!(usize::from(VoxelCoords::new(32, 32, 32)), 35936);
    assert_eq!(usize::from(VoxelCoords::new(1, 2, 3)), 3 + 66 + 1089);
    for index in [0usize, 5, 100, 1088, 1089, 20000, 35936] {
        assert_eq!(usize::from(VoxelCoords::from(index)), index);
    }
    assert_eq!(VoxelCoords2D::from(34usize), Coords2D { x: 1, z: 1 });
    assert_eq!(usize::from(Coords2D { x: 2u8, z: 5u8 }), 5 + 66);
    assert_eq!(VoxelCoords2D::from(VoxelCoords::new(4, 5, 6)), Coords2D { x: 4, z: 6 });
}

#[test]
fn six_neighbours_of_signed_coordinates() {
    let p = ChunkCoords::new(1, 2, 3);
    assert_eq!(p.get_north(), ChunkCoords::new(1, 2, 4));
    assert_eq!(p.get_south(), ChunkCoords::new(1, 2, 2));
    assert_eq!(p.get_east(), ChunkCoords::new(2, 2, 3));
    assert_eq!(p.get_west(), ChunkCoords::new(0, 2, 3));
    assert_eq!(p.get_up(), ChunkCoords::new(1, 3, 3));
    assert_eq!(p.get_down(), ChunkCoords::new(1, 1, 3));
}

#[test]
fn six_neighbours_of_voxel_coordinates() {
    let p = VoxelCoords::new(1, 2, 3);
    assert_eq!(p.get_north(), VoxelCoords::new(1, 2, 4));
    assert_eq!(p.get_south(), VoxelCoords::new(1, 2, 2));
    assert_eq!(p.get_east(), VoxelCoords::new(2, 2, 3));
    assert_eq!(p.get_west(), VoxelCoords::new(0, 2, 3));
    assert_eq!(p.get_up(), VoxelCoords::new(1, 3, 3));
    assert_eq!(p.get_down(), VoxelCoords::new(1, 1, 3));
}

#[test]
fn cube_of_neighbours_with_the_middle() {
    let mut iter = ChunkCoords::new(10, 20, 30).iter_neighbours(true);
    let mut seen = Vec::new();
    while let Some(pos) = iter.next() {
        seen.push(pos);
    }
    assert_eq!(seen.len(), 27);
    assert_eq!(seen[0], ChunkCoords::new(9, 19, 29));
    assert_eq!(seen[1], ChunkCoords::new(10, 19, 29));
    assert_eq!(seen[3], ChunkCoords::new(9, 20, 29));
    assert_eq!(seen[9], ChunkCoords::new(9, 19, 30));
    assert_eq!(seen[13], ChunkCoords::new(10, 20, 30));
    assert_eq!(seen[26], ChunkCoords::new(11, 21, 31));
    assert_eq!(iter.next(), None);
    assert_eq!(iter.next(), None);
}

#[test]
fn cube_of_neighbours_without_the_middle() {
    let center = ChunkCoords::new(0, 0, 0);
    let mut iter = CoordsNeighboursIter::new(center, false);
    let mut seen = Vec::new();
    while let Some(pos) = iter.next() {
        seen.push(pos);
    }
    assert_eq!(seen.len(), 26);
    assert!(!seen.contains(&center));
    assert_eq!(seen[12], ChunkCoords::new(-1, 0, 0));
    assert_eq!(seen[13], ChunkCoords::new(1, 0, 0));
    for (i, a) in seen.iter().enumerate() {
        assert_eq!(shell(center, *a), 1);
        for b in seen[..i].iter() {
            assert_ne!(a, b);
        }
    }
}

#[test]
fn expanding_shells_of_no_radius_are_empty() {
    let mut iter = AroundCoordsIterator::new(ChunkCoords::new(5, 5, 5), 0);
    assert!(!iter.is_done());
    assert_eq!(iter.next(), None);
    assert!(iter.is_done());
    assert!(neighbors_in_expanding_shells(ChunkCoords::new(5, 5, 5), 0).is_empty());
}

#[test]
fn expanding_shells_of_radius_one_are_the_centre() {
    let center = ChunkCoords::new(-3, 0, 9);
    assert_eq!(neighbors_in_expanding_shells(center, 1), vec![center]);
    let mut iter = center.iter_around(1);
    assert_eq!(iter.next(), Some(center));
    assert!(!iter.is_done());
    assert_eq!(iter.next(), None);
    assert!(iter.is_done());
    assert_eq!(iter.next(), None);
}

#[test]
fn expanding_shells_visit_shell_after_shell() {
    let center = ChunkCoords::new(100, -50, 7);
    for radius in 0..6usize {
        let positions = neighbors_in_expanding_shells(center, radius);
        let side = if radius == 0 { 0 } else { 2 * radius - 1 };
        assert_eq!(positions.len(), side * side * side);
        let mut last = 0;
        for (i, pos) in positions.iter().enumerate() {
            let s = shell(center, *pos);
            assert!(s < radius as i64);
            assert!(s >= last);
            last = s;
            for other in positions[..i].iter() {
                assert_ne!(pos, other);
            }
        }
        for r in 0..radius {
            let inner = if r == 0 { 0 } else { (2 * r - 1) * (2 * r - 1) * (2 * r - 1) };
            let outer = (2 * r + 1) * (2 * r + 1) * (2 * r + 1);
            for pos in positions[inner..outer].iter() {
                assert_eq!(shell(center, *pos), r as i64);
            }
        }
    }
}

#[test]
fn expanding_shells_go_by_x_then_y_then_z_inside_a_shell() {
    let positions = neighbors_in_expanding_shells(ChunkCoords::new(0, 0, 0), 3);
    assert_eq!(positions[0], ChunkCoords::new(0, 0, 0));
    assert_eq!(positions[1], ChunkCoords::new(-1, -1, -1));
    assert_eq!(positions[2], ChunkCoords::new(-1, -1, 0));
    assert_eq!(positions[4], ChunkCoords::new(-1, 0, -1));
    assert_eq!(positions[10], ChunkCoords::new(0, -1, -1));
    assert_eq!(positions[13], ChunkCoords::new(0, 0, -1));
    assert_eq!(positions[14], ChunkCoords::new(0, 0, 1));
    assert_eq!(positions[26], ChunkCoords::new(1, 1, 1));
    assert_eq!(positions[27], ChunkCoords::new(-2, -2, -2));
    assert_eq!(positions[124], ChunkCoords::new(2, 2, 2));
    for pair in positions[27..].windows(2) {
        assert!((pair[0].x, pair[0].y, pair[0].z) < (pair[1].x, pair[1].y, pair[1].z));
    }
}

#[test]
fn expanding_shells_around_a_voxel_may_leave_the_field() {
    let mut iter = VoxelCoords::new(0, 255, 3).iter_around(2);
    let mut seen = Vec::new();
    while let Some(pos) = iter.next() {
        seen.push(pos);
    }
    assert_eq!(seen.len(), 27);
    assert_eq!(seen[0], ChunkCoords::new(0, 255, 3));
    assert_eq!(seen[1], ChunkCoords::new(-1, 254, 2));
    assert_eq!(seen[26], ChunkCoords::new(1, 256, 4));
    assert!(iter.is_done());
}
