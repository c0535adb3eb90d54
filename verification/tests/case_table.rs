use voxel_entity::common::voxels::Voxel;
use voxel_entity::marching_cubes::table::{case_row, get_index_by_voxels, read_entry, TABLE};

const EDGE_ENDS: [(usize, usize); 12] = [
    (1, 5),
    (4, 5),
    (0, 4),
    (0, 1),
    (3, 7),
    (6, 7),
    (2, 6),
    (2, 3),
    (1, 3),
    (5, 7),
    (4, 6),
    (0, 2),
];

fn row_len(row: &[i8; 16]) -> usize {
    row.iter().position(|&e| e == -1).unwrap()
}

#[test]
fn table_rows_are_whole_triangles_and_closed() {
    assert_eq!(TABLE.len(), 256);
    for mask in 0..256usize {
        let row = case_row(mask);
        let len = row_len(&row);
        assert_eq!(len % 3, 0, "row {}", mask);
        assert!(len <= 15);
        for k in 0..16 {
            if k < len {
                assert!(0 <= row[k] && row[k] < 12, "row {} entry {}", mask, k);
            } else {
                assert_eq!(row[k], -1);
            }
        }
    }
}

#[test]
fn table_rows_name_exactly_the_crossed_edges() {
    for mask in 0..256usize {
        let row = case_row(mask);
        let len = row_len(&row);
        for edge in 0..12usize {
            let (a, b) = EDGE_ENDS[edge];
            let crosses = ((mask >> a) & 1) != ((mask >> b) & 1);
            let named = row[..len].iter().any(|&e| e as usize == edge);
            assert_eq!(crosses, named, "row {} edge {}", mask, edge);
        }
    }
}

#[test]
fn table_rows_of_full_and_empty_cells_are_empty() {
    assert_eq!(case_row(0), [-1; 16]);
    assert_eq!(case_row(255), [-1; 16]);
}

#[test]
fn table_row_of_one_solid_corner() {
    let mut expected = [-1i8; 16];
    expected[0] = 2;
    expected[1] = 3;
    expected[2] = 11;
    assert_eq!(case_row(1), expected);
    assert_eq!(TABLE[1], 0xffff_ffff_ffff_fb32);
}

#[test]
fn table_triangles_have_three_different_edges() {
    for mask in 0..256usize {
        let row = case_row(mask);
        let len = row_len(&row);
        for t in 0..len / 3 {
            let (a, b, c) = (row[3 * t], row[3 * t + 1], row[3 * t + 2]);
            assert!(a != b && b != c && a != c, "row {} triangle {}", mask, t);
        }
    }
}

#[test]
fn read_entry_agrees_with_case_row() {
    for mask in [0usize, 1, 37, 105, 128, 200, 254, 255] {
        let row = case_row(mask);
        for k in 0..16 {
            assert_eq!(read_entry(mask, k), row[k]);
        }
    }
}

#[test]
fn case_index_sets_one_bit_for_each_solid_corner() {
    let air = Voxel::from(-1000);
    let rock = Voxel::from(0);
    assert_eq!(get_index_by_voxels([[[air; 2]; 2]; 2]), 0);
    assert_eq!(get_index_by_voxels([[[rock; 2]; 2]; 2]), 255);
    for x in 0..2usize {
        for y in 0..2usize {
            for z in 0..2usize {
                let mut block = [[[air; 2]; 2]; 2];
                block[x][y][z] = rock;
                assert_eq!(get_index_by_voxels(block), 1 << (4 * x + 2 * y + z));
            }
        }
    }
    let mut block = [[[air; 2]; 2]; 2];
    block[0][0][1] = rock;
    block[1][1][0] = Voxel::from(17);
    assert_eq!(get_index_by_voxels(block), 2 + 64);
}
