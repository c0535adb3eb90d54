use vstd::prelude::*;
use crate::common::voxels::Voxel;

verus! {

/// The eight voxels at the corners of a cell, by their offsets `[x][y][z]`
/// from the cell's origin.
pub type VoxelsBlock = [[[Voxel; 2]; 2]; 2];

/// The case table of marching cubes. For each of the 256 patterns of solid
/// corners of a cell it holds the triangles that cover the boundary between
/// solid and empty inside the cell, as triples of edge numbers.
///
/// The number of a pattern has bit `4 * x + 2 * y + z` set where the corner
/// `(x, y, z)` of the cell is solid. A row is packed into sixteen hexadecimal
/// digits, the first entry in the lowest digit: the digits `0` to `b` name
/// the edges 0 to 11, and `f` closes the row and fills it up. The triangles
/// wind so that `(c - a) x (b - a)` points away from the solid.
pub const TABLE: [u64; 256] = [
    0xffff_ffff_ffff_ffff,
    0xffff_ffff_ffff_fb32,
    0xffff_ffff_ffff_f380,
    0xffff_ffff_ffb8_02b0,
    0xffff_ffff_ffff_f7b6,
    0xffff_ffff_ff73_2672,
    0xffff_ffff_ff7b_6380,
    0xffff_fff7_8067_0260,
    0xffff_ffff_ffff_f874,
    0xffff_ffff_ff87_4b32,
    0xffff_ffff_ff74_0370,
    0xffff_fff7_40b7_02b0,
    0xffff_ffff_ffb6_48b4,
    0xffff_fff8_3248_2642,
    0xffff_fff6_40b6_03b0,
    0xffff_ffff_ff64_0260,
    0xffff_ffff_ffff_fa21,
    0xffff_ffff_ffb3_1ab1,
    0xffff_ffff_ffa2_1380,
    0xffff_fffb_80ab_01a0,
    0xffff_ffff_ff7b_6a21,
    0xffff_fff7_3167_1a61,
    0xffff_fff7_b6a2_1380,
    0xffff_7806_70a6_01a0,
    0xffff_ffff_ff87_4a21,
    0xffff_fff8_74b3_1ab1,
    0xffff_fffa_2174_0370,
    0xffff_740b_70ab_01a0,
    0xffff_fffb_648b_4a21,
    0xffff_8314_8164_1a61,
    0xffff_a216_40b6_03b0,
    0xffff_fff6_40a6_01a0,
    0xffff_ffff_ffff_f910,
    0xffff_ffff_ffb3_2910,
    0xffff_ffff_ff89_1381,
    0xffff_fff8_91b8_12b1,
    0xffff_ffff_ff7b_6910,
    0xffff_fff7_3267_2910,
    0xffff_fff7_b689_1381,
    0xffff_8917_8167_1261,
    0xffff_ffff_ff87_4910,
    0xffff_fff8_74b3_2910,
    0xffff_fff4_9174_1371,
    0xffff_4917_41b7_12b1,
    0xffff_fffb_648b_4910,
    0xffff_8324_8264_2910,
    0xffff_4916_41b6_13b1,
    0xffff_fff4_9164_1261,
    0xffff_ffff_ffa2_09a0,
    0xffff_fffb_30ab_09a0,
    0xffff_fff9_a289_2382,
    0xffff_ffff_ffab_89a8,
    0xffff_fff7_b6a2_09a0,
    0xffff_7306_70a6_09a0,
    0xffff_7b69_a289_2382,
    0xffff_fff9_a689_6786,
    0xffff_fff8_74a2_09a0,
    0xffff_874b_30ab_09a0,
    0xffff_9a24_9274_2372,
    0xffff_fffb_74ab_49a4,
    0xffff_b648_b4a2_09a0,
    0xf830_4806_40a6_09a0,
    0xf9a2_4926_42b6_23b2,
    0xffff_ffff_ffa6_49a4,
    0xffff_ffff_ffff_f6a5,
    0xffff_ffff_ff6a_5b32,
    0xffff_ffff_ff6a_5380,
    0xffff_fff6_a5b8_02b0,
    0xffff_ffff_ffba_57b5,
    0xffff_fff7_3257_2a52,
    0xffff_fffb_a57b_5380,
    0xffff_7805_70a5_02a0,
    0xffff_ffff_ff6a_5874,
    0xffff_fff6_a587_4b32,
    0xffff_fff6_a574_0370,
    0xffff_6a57_40b7_02b0,
    0xffff_fffa_54ba_48b4,
    0xffff_8324_8254_2a52,
    0xffff_540a_50ba_03b0,
    0xffff_fff5_40a5_02a0,
    0xffff_ffff_ff62_1561,
    0xffff_fffb_316b_1561,
    0xffff_fff6_2156_1380,
    0xffff_b806_b056_0150,
    0xffff_fffb_217b_1571,
    0xffff_ffff_ff73_1571,
    0xffff_b217_b157_1380,
    0xffff_fff7_8057_0150,
    0xffff_fff8_7462_1561,
    0xffff_874b_316b_1561,
    0xffff_6215_6174_0370,
    0xf740_b706_b056_0150,
    0xffff_b218_b148_1541,
    0xffff_fff8_3148_1541,
    0xf540_1502_10b2_03b0,
    0xffff_ffff_ff54_0150,
    0xffff_ffff_ff6a_5910,
    0xffff_fff6_a5b3_2910,
    0xffff_fff6_a589_1381,
    0xffff_6a58_91b8_12b1,
    0xffff_fffb_a57b_5910,
    0xffff_7325_72a5_2910,
    0xffff_ba57_b589_1381,
    0xf891_7815_71a5_12a1,
    0xffff_fff6_a587_4910,
    0xffff_6a58_74b3_2910,
    0xffff_6a54_9174_1371,
    0xf6a5_4917_41b7_12b1,
    0xffff_a54b_a48b_4910,
    0xf832_4825_42a5_2910,
    0xf491_541a_51ba_13b1,
    0xffff_4915_41a5_12a1,
    0xffff_fff6_2056_0950,
    0xffff_b306_b056_0950,
    0xffff_5629_5289_2382,
    0xffff_fff8_95b8_56b5,
    0xffff_b207_b057_0950,
    0xffff_fff7_3057_0950,
    0xf7b2_5729_5289_2382,
    0xffff_ffff_ff89_5785,
    0xffff_8746_2056_0950,
    0xf874_b306_b056_0950,
    0xf562_9524_9274_2372,
    0xffff_b746_b456_4954,
    0xfb20_8b04_8054_0950,
    0xffff_8304_8054_0950,
    0xffff_ffff_ff95_43b2,
    0xffff_ffff_ffff_f954,
    0xffff_ffff_ffff_f594,
    0xffff_ffff_ff59_4b32,
    0xffff_ffff_ff59_4380,
    0xffff_fff5_94b8_02b0,
    0xffff_ffff_ff7b_6594,
    0xffff_fff5_9473_2672,
    0xffff_fff7_b659_4380,
    0xffff_5947_8067_0260,
    0xffff_ffff_ff87_5985,
    0xffff_fff8_7598_5b32,
    0xffff_fff5_9075_0370,
    0xffff_5907_50b7_02b0,
    0xffff_fffb_658b_5985,
    0xffff_8329_8259_2652,
    0xffff_5906_50b6_03b0,
    0xffff_fff5_9065_0260,
    0xffff_ffff_ff59_4a21,
    0xffff_fff5_94b3_1ab1,
    0xffff_fff5_94a2_1380,
    0xffff_594b_80ab_01a0,
    0xffff_fff7_b659_4a21,
    0xffff_5947_3167_1a61,
    0xffff_7b65_94a2_1380,
    0xf594_7806_70a6_01a0,
    0xffff_fff8_7598_5a21,
    0xffff_8759_85b3_1ab1,
    0xffff_a215_9075_0370,
    0xf590_750b_70ab_01a0,
    0xffff_b658_b598_5a21,
    0xf831_9815_9165_1a61,
    0xfa21_5906_50b6_03b0,
    0xffff_5906_50a6_01a0,
    0xffff_ffff_ff51_0450,
    0xffff_fffb_3251_0450,
    0xffff_fff4_5184_1381,
    0xffff_4518_41b8_12b1,
    0xffff_fff7_b651_0450,
    0xffff_7326_7251_0450,
    0xffff_7b64_5184_1381,
    0xf451_8417_8167_1261,
    0xffff_fff5_1075_0870,
    0xffff_b325_1075_0870,
    0xffff_ffff_ff75_1371,
    0xffff_fff7_51b7_12b1,
    0xffff_5106_50b6_08b0,
    0xf510_6502_6032_0830,
    0xffff_fff6_51b6_13b1,
    0xffff_ffff_ff65_1261,
    0xffff_fffa_205a_0450,
    0xffff_b30a_b05a_0450,
    0xffff_5a24_5284_2382,
    0xffff_fffb_84ab_45a4,
    0xffff_7b6a_205a_0450,
    0xf730_670a_605a_0450,
    0xf7b6_5a24_5284_2382,
    0xffff_7846_74a6_45a4,
    0xffff_a205_a075_0870,
    0xfb30_ab05_a075_0870,
    0xffff_fff5_a275_2372,
    0xffff_ffff_ffb7_5ab5,
    0xfa20_5a06_50b6_08b0,
    0xffff_ffff_ffa6_5830,
    0xffff_5a26_52b6_23b2,
    0xffff_ffff_ffff_fa65,
    0xffff_ffff_ffa9_46a4,
    0xffff_fffa_946a_4b32,
    0xffff_fffa_946a_4380,
    0xffff_a946_a4b8_02b0,
    0xffff_fffa_94ba_47b4,
    0xffff_7324_7294_2a92,
    0xffff_a94b_a47b_4380,
    0xf780_4709_40a9_02a0,
    0xffff_fff8_7698_6a96,
    0xffff_8769_86a9_6b32,
    0xffff_a906_a076_0370,
    0xfa90_6a07_60b7_02b0,
    0xffff_ffff_ffa9_8ba8,
    0xffff_fff8_3298_2a92,
    0xffff_fffa_90ba_03b0,
    0xffff_ffff_ffa9_02a0,
    0xffff_fff6_2146_1941,
    0xffff_b316_b146_1941,
    0xffff_6214_6194_1380,
    0xfb80_6b04_6094_0190,
    0xffff_b217_b147_1941,
    0xffff_fff7_3147_1941,
    0xfb21_7b14_7194_1380,
    0xffff_7804_7094_0190,
    0xffff_6217_6187_1981,
    0xfb31_6b17_6187_1981,
    0xf190_2106_2076_0370,
    0xffff_ffff_ffb7_6190,
    0xffff_fffb_218b_1981,
    0xffff_ffff_ff83_1981,
    0xffff_1902_10b2_03b0,
    0xffff_ffff_ffff_f190,
    0xffff_fffa_106a_0460,
    0xffff_b32a_106a_0460,
    0xffff_6a14_6184_1381,
    0xf6a1_4618_41b8_12b1,
    0xffff_a10b_a07b_0470,
    0xfa10_2a03_2073_0470,
    0xfba1_7b14_7184_1381,
    0xffff_ffff_ff78_42a1,
    0xffff_a106_a076_0870,
    0xfb32_a106_a076_0870,
    0xffff_fff6_a176_1371,
    0xffff_6a17_61b7_12b1,
    0xffff_fffa_10ba_08b0,
    0xffff_a102_a032_0830,
    0xffff_ffff_ffba_13b1,
    0xffff_ffff_ffff_f2a1,
    0xffff_ffff_ff62_0460,
    0xffff_fffb_306b_0460,
    0xffff_fff4_6284_2382,
    0xffff_ffff_ffb8_46b4,
    0xffff_fffb_207b_0470,
    0xffff_ffff_ff73_0470,
    0xffff_7b24_7284_2382,
    0xffff_ffff_ffff_f784,
    0xffff_fff6_2076_0870,
    0xffff_b306_b076_0870,
    0xffff_ffff_ff76_2372,
    0xffff_ffff_ffff_fb76,
    0xffff_ffff_ffb2_08b0,
    0xffff_ffff_ffff_f830,
    0xffff_ffff_ffff_f3b2,
    0xffff_ffff_ffff_ffff,
];

/// The hexadecimal digit at place `k` of `packed`, counted from the lowest.
pub open spec fn nibble(packed: int, k: int) -> int {
    if k == 0 {
        packed % 16
    } else if k == 1 {
        (packed / 0x10) % 16
    } else if k == 2 {
        (packed / 0x100) % 16
    } else if k == 3 {
        (packed / 0x1000) % 16
    } else if k == 4 {
        (packed / 0x1_0000) % 16
    } else if k == 5 {
        (packed / 0x10_0000) % 16
    } else if k == 6 {
        (packed / 0x100_0000) % 16
    } else if k == 7 {
        (packed / 0x1000_0000) % 16
    } else if k == 8 {
        (packed / 0x1_0000_0000) % 16
    } else if k == 9 {
        (packed / 0x10_0000_0000) % 16
    } else if k == 10 {
        (packed / 0x100_0000_0000) % 16
    } else if k == 11 {
        (packed / 0x1000_0000_0000) % 16
    } else if k == 12 {
        (packed / 0x1_0000_0000_0000) % 16
    } else if k == 13 {
        (packed / 0x10_0000_0000_0000) % 16
    } else if k == 14 {
        (packed / 0x100_0000_0000_0000) % 16
    } else {
        (packed / 0x1000_0000_0000_0000) % 16
    }
}

/// The entry at place `k` of the row of pattern `mask`: an edge number, or
/// `-1` behind the last triangle.
#[verifier::opaque]
pub open spec fn table_entry(mask: int, k: int) -> int {
    let digit = nibble(TABLE[mask] as int, k);
    if digit == 15 {
        -1
    } else {
        digit
    }
}

/// Number of triangles in the row of pattern `mask`.
pub open spec fn triangle_count(mask: int) -> int {
    if table_entry(mask, 0) == -1 {
        0
    } else if table_entry(mask, 3) == -1 {
        1
    } else if table_entry(mask, 6) == -1 {
        2
    } else if table_entry(mask, 9) == -1 {
        3
    } else if table_entry(mask, 12) == -1 {
        4
    } else {
        5
    }
}

/// Whether the pattern `mask` has the corner `corner` solid: whether bit
/// `corner` of `mask` is set.
pub open spec fn corner_is_solid(mask: int, corner: int) -> bool {
    if corner == 0 {
        mask % 2 == 1
    } else if corner == 1 {
        (mask / 2) % 2 == 1
    } else if corner == 2 {
        (mask / 4) % 2 == 1
    } else if corner == 3 {
        (mask / 8) % 2 == 1
    } else if corner == 4 {
        (mask / 16) % 2 == 1
    } else if corner == 5 {
        (mask / 32) % 2 == 1
    } else if corner == 6 {
        (mask / 64) % 2 == 1
    } else {
        (mask / 128) % 2 == 1
    }
}

/// The corner at the lower end of the edge `edge`, as `4 * x + 2 * y + z`.
pub open spec fn edge_corner_a(edge: int) -> int {
    if edge == 0 {
        1
    } else if edge == 1 {
        4
    } else if edge == 2 {
        0
    } else if edge == 3 {
        0
    } else if edge == 4 {
        3
    } else if edge == 5 {
        6
    } else if edge == 6 {
        2
    } else if edge == 7 {
        2
    } else if edge == 8 {
        1
    } else if edge == 9 {
        5
    } else if edge == 10 {
        4
    } else {
        0
    }
}

/// The corner at the upper end of the edge `edge`, as `4 * x + 2 * y + z`.
pub open spec fn edge_corner_b(edge: int) -> int {
    if edge == 0 {
        5
    } else if edge == 1 {
        5
    } else if edge == 2 {
        4
    } else if edge == 3 {
        1
    } else if edge == 4 {
        7
    } else if edge == 5 {
        7
    } else if edge == 6 {
        6
    } else if edge == 7 {
        3
    } else if edge == 8 {
        3
    } else if edge == 9 {
        7
    } else if edge == 10 {
        6
    } else {
        2
    }
}

/// Whether the surface crosses the edge `edge` in a cell of pattern `mask`:
/// one end of the edge is solid and the other is not.
pub open spec fn edge_crosses(mask: int, edge: int) -> bool {
    corner_is_solid(mask, edge_corner_a(edge)) != corner_is_solid(mask, edge_corner_b(edge))
}

/// The entry at place `k` of the row of pattern `mask` is as it should be:
/// inside the row's triangles an edge, numbered from 0 to 11, that the
/// surface crosses in a cell of that pattern; behind them `-1`.
pub open spec fn entry_is_sound(mask: int, k: int) -> bool {
    if k < 3 * triangle_count(mask) {
        0 <= table_entry(mask, k) < 12 && edge_crosses(mask, table_entry(mask, k))
    } else {
        table_entry(mask, k) == -1
    }
}

/// The row of pattern `mask` holds at most five whole triangles of edges
/// that the surface crosses, and nothing but `-1` behind them.
pub open spec fn row_is_sound(mask: int) -> bool {
    &&& entry_is_sound(mask, 0)
    &&& entry_is_sound(mask, 1)
    &&& entry_is_sound(mask, 2)
    &&& entry_is_sound(mask, 3)
    &&& entry_is_sound(mask, 4)
    &&& entry_is_sound(mask, 5)
    &&& entry_is_sound(mask, 6)
    &&& entry_is_sound(mask, 7)
    &&& entry_is_sound(mask, 8)
    &&& entry_is_sound(mask, 9)
    &&& entry_is_sound(mask, 10)
    &&& entry_is_sound(mask, 11)
    &&& entry_is_sound(mask, 12)
    &&& entry_is_sound(mask, 13)
    &&& entry_is_sound(mask, 14)
    &&& entry_is_sound(mask, 15)
}

/// Whether the row of pattern `mask` names the edge `edge` in one of its
/// triangles.
pub open spec fn row_names(mask: int, edge: int) -> bool {
    ||| table_entry(mask, 0) == edge
    ||| table_entry(mask, 1) == edge
    ||| table_entry(mask, 2) == edge
    ||| table_entry(mask, 3) == edge
    ||| table_entry(mask, 4) == edge
    ||| table_entry(mask, 5) == edge
    ||| table_entry(mask, 6) == edge
    ||| table_entry(mask, 7) == edge
    ||| table_entry(mask, 8) == edge
    ||| table_entry(mask, 9) == edge
    ||| table_entry(mask, 10) == edge
    ||| table_entry(mask, 11) == edge
    ||| table_entry(mask, 12) == edge
    ||| table_entry(mask, 13) == edge
    ||| table_entry(mask, 14) == edge
}

/// The row of pattern `mask` leaves out no edge that the surface crosses
/// in a cell of that pattern.
pub open spec fn row_is_complete(mask: int) -> bool {
    &&& edge_crosses(mask, 0) ==> row_names(mask, 0)
    &&& edge_crosses(mask, 1) ==> row_names(mask, 1)
    &&& edge_crosses(mask, 2) ==> row_names(mask, 2)
    &&& edge_crosses(mask, 3) ==> row_names(mask, 3)
    &&& edge_crosses(mask, 4) ==> row_names(mask, 4)
    &&& edge_crosses(mask, 5) ==> row_names(mask, 5)
    &&& edge_crosses(mask, 6) ==> row_names(mask, 6)
    &&& edge_crosses(mask, 7) ==> row_names(mask, 7)
    &&& edge_crosses(mask, 8) ==> row_names(mask, 8)
    &&& edge_crosses(mask, 9) ==> row_names(mask, 9)
    &&& edge_crosses(mask, 10) ==> row_names(mask, 10)
    &&& edge_crosses(mask, 11) ==> row_names(mask, 11)
}

/// Reads the entry at place `k` of the row of pattern `mask`.
pub fn read_entry(mask: usize, k: usize) -> (entry: i8)
    requires
        mask < 256,
        k < 16,
    ensures
        entry == table_entry(mask as int, k as int),
{
    reveal(table_entry);
    let packed: u64 = TABLE[mask];
    let digit: u64 = if k == 0 {
        packed % 16
    } else if k == 1 {
        (packed / 0x10) % 16
    } else if k == 2 {
        (packed / 0x100) % 16
    } else if k == 3 {
        (packed / 0x1000) % 16
    } else if k == 4 {
        (packed / 0x1_0000) % 16
    } else if k == 5 {
        (packed / 0x10_0000) % 16
    } else if k == 6 {
        (packed / 0x100_0000) % 16
    } else if k == 7 {
        (packed / 0x1000_0000) % 16
    } else if k == 8 {
        (packed / 0x1_0000_0000) % 16
    } else if k == 9 {
        (packed / 0x10_0000_0000) % 16
    } else if k == 10 {
        (packed / 0x100_0000_0000) % 16
    } else if k == 11 {
        (packed / 0x1000_0000_0000) % 16
    } else if k == 12 {
        (packed / 0x1_0000_0000_0000) % 16
    } else if k == 13 {
        (packed / 0x10_0000_0000_0000) % 16
    } else if k == 14 {
        (packed / 0x100_0000_0000_0000) % 16
    } else {
        (packed / 0x1000_0000_0000_0000) % 16
    };
    if digit == 15 {
        -1
    } else {
        digit as i8
    }
}

/// The row of the case table for the pattern `mask`, unpacked.
pub fn case_row(mask: usize) -> (row: [i8; 16])
    requires
        mask < 256,
    ensures
        forall|k: int| 0 <= k < 16 ==> #[trigger] row[k] == table_entry(mask as int, k),
{
    [
        read_entry(mask, 0),
        read_entry(mask, 1),
        read_entry(mask, 2),
        read_entry(mask, 3),
        read_entry(mask, 4),
        read_entry(mask, 5),
        read_entry(mask, 6),
        read_entry(mask, 7),
        read_entry(mask, 8),
        read_entry(mask, 9),
        read_entry(mask, 10),
        read_entry(mask, 11),
        read_entry(mask, 12),
        read_entry(mask, 13),
        read_entry(mask, 14),
        read_entry(mask, 15),
    ]
}

/// The eight voxels of a block in the order of their corner numbers
/// `4 * x + 2 * y + z`.
pub open spec fn block_corners(voxels: VoxelsBlock) -> Seq<Voxel> {
    seq![
        voxels[0][0][0],
        voxels[0][0][1],
        voxels[0][1][0],
        voxels[0][1][1],
        voxels[1][0][0],
        voxels[1][0][1],
        voxels[1][1][0],
        voxels[1][1][1],
    ]
}

/// The bit of corner `corner` in the number of a pattern, where the voxel at
/// that corner is active; else zero.
pub open spec fn corner_bit(corners: Seq<Voxel>, corner: int, weight: int) -> int {
    if corners[corner].is_active() {
        weight
    } else {
        0
    }
}

/// The number of the pattern of solid corners of a cell, from the voxels at
/// its eight corners.
pub open spec fn case_index(corners: Seq<Voxel>) -> int {
    corner_bit(corners, 0, 1) + corner_bit(corners, 1, 2) + corner_bit(corners, 2, 4) + corner_bit(
        corners,
        3,
        8,
    ) + corner_bit(corners, 4, 16) + corner_bit(corners, 5, 32) + corner_bit(corners, 6, 64)
        + corner_bit(corners, 7, 128)
}

/// The digit of weight `weight` of a number whose lower digits are `low`
/// and whose higher digits are `high` is `bit`.
proof fn lemma_binary_digit(low: int, bit: int, high: int, weight: int)
    requires
        0 < weight,
        0 <= low < weight,
        0 <= bit <= 1,
    ensures
        ((low + weight * (bit + 2 * high)) / weight) % 2 == bit,
{
    let x = low + weight * (bit + 2 * high);
    assert(x == (bit + 2 * high) * weight + low) by (nonlinear_arith)
        requires
            x == low + weight * (bit + 2 * high),
    ;
    vstd::arithmetic::div_mod::lemma_fundamental_div_mod_converse(
        x,
        weight,
        bit + 2 * high,
        low,
    );
}

/// In the pattern of a cell exactly the corners with an active voxel are
/// solid.
pub proof fn lemma_case_index_bits(corners: Seq<Voxel>, corner: int)
    requires
        corners.len() == 8,
        0 <= corner < 8,
    ensures
        0 <= case_index(corners) < 256,
        corner_is_solid(case_index(corners), corner) == corners[corner].is_active(),
{
    let b0 = corner_bit(corners, 0, 1);
    let b1 = corner_bit(corners, 1, 1);
    let b2 = corner_bit(corners, 2, 1);
    let b3 = corner_bit(corners, 3, 1);
    let b4 = corner_bit(corners, 4, 1);
    let b5 = corner_bit(corners, 5, 1);
    let b6 = corner_bit(corners, 6, 1);
    let b7 = corner_bit(corners, 7, 1);
    assert(corner_bit(corners, 1, 2) == 2 * b1);
    assert(corner_bit(corners, 2, 4) == 4 * b2);
    assert(corner_bit(corners, 3, 8) == 8 * b3);
    assert(corner_bit(corners, 4, 16) == 16 * b4);
    assert(corner_bit(corners, 5, 32) == 32 * b5);
    assert(corner_bit(corners, 6, 64) == 64 * b6);
    assert(corner_bit(corners, 7, 128) == 128 * b7);
    let mask = case_index(corners);
    assert(mask == b0 + 2 * b1 + 4 * b2 + 8 * b3 + 16 * b4 + 32 * b5 + 64 * b6 + 128 * b7);
    if corner == 0 {
        lemma_binary_digit(0, b0, b1 + 2 * b2 + 4 * b3 + 8 * b4 + 16 * b5 + 32 * b6 + 64 * b7, 1);
    } else if corner == 1 {
        lemma_binary_digit(b0, b1, b2 + 2 * b3 + 4 * b4 + 8 * b5 + 16 * b6 + 32 * b7, 2);
    } else if corner == 2 {
        lemma_binary_digit(b0 + 2 * b1, b2, b3 + 2 * b4 + 4 * b5 + 8 * b6 + 16 * b7, 4);
    } else if corner == 3 {
        lemma_binary_digit(b0 + 2 * b1 + 4 * b2, b3, b4 + 2 * b5 + 4 * b6 + 8 * b7, 8);
    } else if corner == 4 {
        lemma_binary_digit(b0 + 2 * b1 + 4 * b2 + 8 * b3, b4, b5 + 2 * b6 + 4 * b7, 16);
    } else if corner == 5 {
        lemma_binary_digit(b0 + 2 * b1 + 4 * b2 + 8 * b3 + 16 * b4, b5, b6 + 2 * b7, 32);
    } else if corner == 6 {
        lemma_binary_digit(b0 + 2 * b1 + 4 * b2 + 8 * b3 + 16 * b4 + 32 * b5, b6, b7, 64);
    } else {
        lemma_binary_digit(
            b0 + 2 * b1 + 4 * b2 + 8 * b3 + 16 * b4 + 32 * b5 + 64 * b6,
            b7,
            0,
            128,
        );
    }
}

/// Computes the number of the pattern of solid corners of a block of
/// voxels: the row of the case table that triangulates the block's cell.
pub fn get_index_by_voxels(voxels: VoxelsBlock) -> (index: usize)
    ensures
        index == case_index(block_corners(voxels)),
        index < 256,
{
    let mut index: usize = 0;
    if voxels[0][0][0].is_active() {
        index += 1;
    }
    if voxels[0][0][1].is_active() {
        index += 2;
    }
    if voxels[0][1][0].is_active() {
        index += 4;
    }
    if voxels[0][1][1].is_active() {
        index += 8;
    }
    if voxels[1][0][0].is_active() {
        index += 16;
    }
    if voxels[1][0][1].is_active() {
        index += 32;
    }
    if voxels[1][1][0].is_active() {
        index += 64;
    }
    if voxels[1][1][1].is_active() {
        index += 128;
    }
    index
}

} // verus!
