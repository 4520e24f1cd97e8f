//! The geometry of one cube: its corners, its edges and the triangles that
//! each pattern of solid corners calls for.
use crate::point::Point3;
use vstd::prelude::*;

verus! {

/// Edges of a cube.
pub const EDGE_COUNT: u8 = 12;

/// Most triangles that one cube gives.
pub const MAX_CUBE_TRIANGLES: u8 = 4;

/// For each pattern of solid corners (bit `c` set: corner `c` is solid) the
/// triangles that part solid from empty, three edges each and at most
/// [`MAX_CUBE_TRIANGLES`] of them. A row packs 16 entries of four bits, the
/// first in the lowest bits; an entry of [`EDGE_COUNT`] or more ends the row.
/// With up to four solid corners, the surface parts two solid corners that
/// lie across a face from each other; a pattern with more solid corners has
/// the row of the opposite pattern, wound the other way.
pub const TRIANGULATION: [u64; 256] = [
    0xFFFF_FFFF_FFFF_FFFF, 0xFFFF_FFFF_FFFF_F380, 0xFFFF_FFFF_FFFF_F910, 0xFFFF_FFFF_FF38_1891,
    0xFFFF_FFFF_FFFF_FA21, 0xFFFF_FFFF_FFA2_1380, 0xFFFF_FFFF_FF9A_0A20, 0xFFFF_FFF3_8289_29A2,
    0xFFFF_FFFF_FFFF_FB32, 0xFFFF_FFFF_FF2B_0B80, 0xFFFF_FFFF_FFB3_2910, 0xFFFF_FFF2_B1B8_1891,
    0xFFFF_FFFF_FFAB_1B31, 0xFFFF_FFF1_A0AB_0B80, 0xFFFF_FFF9_A0AB_0B30, 0xFFFF_FFFF_FF9A_8AB8,
    0xFFFF_FFFF_FFFF_F874, 0xFFFF_FFFF_FF37_0740, 0xFFFF_FFFF_FF87_4910, 0xFFFF_FFF3_7174_1491,
    0xFFFF_FFFF_FF87_4A21, 0xFFFF_FFFA_2137_0740, 0xFFFF_FFF8_749A_0A20, 0xFFFF_3727_4249_29A2,
    0xFFFF_FFFF_FF87_4B32, 0xFFFF_FFF2_B0B7_0740, 0xFFFF_FFF8_74B3_2910, 0xFFFF_2B1B_7174_1491,
    0xFFFF_FFF8_74AB_1B31, 0xFFFF_1A0A_B0B7_0740, 0xFFFF_8749_A0AB_0B30, 0xFFFF_FFFB_74AB_49A4,
    0xFFFF_FFFF_FFFF_F594, 0xFFFF_FFFF_FF59_4380, 0xFFFF_FFFF_FF45_0510, 0xFFFF_FFF3_8184_1451,
    0xFFFF_FFFF_FF59_4A21, 0xFFFF_FFF5_94A2_1380, 0xFFFF_FFF4_505A_0A20, 0xFFFF_3828_4245_25A2,
    0xFFFF_FFFF_FF59_4B32, 0xFFFF_FFF5_942B_0B80, 0xFFFF_FFFB_3245_0510, 0xFFFF_2B1B_8184_1451,
    0xFFFF_FFF5_94AB_1B31, 0xFFFF_5941_A0AB_0B80, 0xFFFF_4505_A0AB_0B30, 0xFFFF_FFFB_84AB_45A4,
    0xFFFF_FFFF_FF98_5875, 0xFFFF_FFF3_7075_0590, 0xFFFF_FFF8_7075_0510, 0xFFFF_FFFF_FF37_1751,
    0xFFFF_FFF9_8587_5A21, 0xFFFF_A213_7075_0590, 0xFFFF_8707_505A_0A20, 0xFFFF_FFF5_A275_2372,
    0xFFFF_FFF9_8587_5B32, 0xFFFF_2B0B_7075_0590, 0xFFFF_B328_7075_0510, 0xFFFF_FFF7_51B7_12B1,
    0xFFFF_9858_75AB_1B31, 0xFFFF_FFFB_75AB_5190, 0xFFFF_FFFB_75AB_5830, 0xFFFF_FFFF_FFB7_5AB5,
    0xFFFF_FFFF_FFFF_F6A5, 0xFFFF_FFFF_FF6A_5380, 0xFFFF_FFFF_FF6A_5910, 0xFFFF_FFF6_A538_1891,
    0xFFFF_FFFF_FF56_1621, 0xFFFF_FFF5_6162_1380, 0xFFFF_FFF9_5056_0620, 0xFFFF_3828_9295_2562,
    0xFFFF_FFFF_FF6A_5B32, 0xFFFF_FFF6_A52B_0B80, 0xFFFF_FFF6_A5B3_2910, 0xFFFF_6A52_B1B8_1891,
    0xFFFF_FFF5_616B_1B31, 0xFFFF_1505_606B_0B80, 0xFFFF_9505_606B_0B30, 0xFFFF_FFF8_95B8_56B5,
    0xFFFF_FFFF_FF6A_5874, 0xFFFF_FFF6_A537_0740, 0xFFFF_FFF6_A587_4910, 0xFFFF_6A53_7174_1491,
    0xFFFF_FFF8_7456_1621, 0xFFFF_5616_2137_0740, 0xFFFF_8749_5056_0620, 0xFFFF_FFF9_5476_2372,
    0xFFFF_FFF6_A587_4B32, 0xFFFF_6A52_B0B7_0740, 0xFFFF_6A58_74B3_2910, 0xFFFF_FFFB_7695_42A1,
    0xFFFF_8745_616B_1B31, 0xFFFF_FFFB_7654_0150, 0xFFFF_FFFB_7695_4830, 0xFFFF_FFFF_FFB7_6954,
    0xFFFF_FFFF_FF6A_4A94, 0xFFFF_FFF6_A4A9_4380, 0xFFFF_FFF4_606A_0A10, 0xFFFF_3818_4146_16A1,
    0xFFFF_FFF9_4146_1621, 0xFFFF_9414_6162_1380, 0xFFFF_FFFF_FF46_0620, 0xFFFF_FFF4_6284_2382,
    0xFFFF_FFF6_A4A9_4B32, 0xFFFF_6A4A_942B_0B80, 0xFFFF_B324_606A_0A10, 0xFFFF_FFFB_846B_42A1,
    0xFFFF_9414_616B_1B31, 0xFFFF_FFFB_846B_4190, 0xFFFF_FFFB_306B_0460, 0xFFFF_FFFF_FFB8_46B4,
    0xFFFF_FFFA_9698_6876, 0xFFFF_3707_606A_0A90, 0xFFFF_8707_606A_0A10, 0xFFFF_FFF6_A176_1371,
    0xFFFF_9818_7176_1621, 0xFFFF_FFF7_6237_2190, 0xFFFF_FFF6_2076_0870, 0xFFFF_FFFF_FF76_2372,
    0xFFFF_A969_8687_6B32, 0xFFFF_FFFB_76A9_02A0, 0xFFFF_FFFB_762A_1830, 0xFFFF_FFFF_FFB7_62A1,
    0xFFFF_FFFB_7683_1981, 0xFFFF_FFFF_FFB7_6190, 0xFFFF_FFFF_FFB7_6830, 0xFFFF_FFFF_FFFF_FB76,
    0xFFFF_FFFF_FFFF_F7B6, 0xFFFF_FFFF_FF7B_6380, 0xFFFF_FFFF_FF7B_6910, 0xFFFF_FFF7_B638_1891,
    0xFFFF_FFFF_FF7B_6A21, 0xFFFF_FFF7_B6A2_1380, 0xFFFF_FFF7_B69A_0A20, 0xFFFF_7B63_8289_29A2,
    0xFFFF_FFFF_FF67_2732, 0xFFFF_FFF2_6067_0780, 0xFFFF_FFF6_7273_2910, 0xFFFF_2616_7178_1891,
    0xFFFF_FFFA_6167_1731, 0xFFFF_1A0A_6067_0780, 0xFFFF_9A0A_6067_0730, 0xFFFF_FFF9_A689_6786,
    0xFFFF_FFFF_FF8B_4B64, 0xFFFF_FFF3_B0B6_0640, 0xFFFF_FFF8_B4B6_4910, 0xFFFF_3B1B_6164_1491,
    0xFFFF_FFF8_B4B6_4A21, 0xFFFF_A213_B0B6_0640, 0xFFFF_8B4B_649A_0A20, 0xFFFF_FFFA_649A_43B2,
    0xFFFF_FFF6_4248_2832, 0xFFFF_FFFF_FF26_0640, 0xFFFF_6424_8283_2910, 0xFFFF_FFF4_9164_1261,
    0xFFFF_A616_4148_1831, 0xFFFF_FFF6_40A6_01A0, 0xFFFF_FFFA_649A_4830, 0xFFFF_FFFF_FFA6_49A4,
    0xFFFF_FFFF_FF7B_6594, 0xFFFF_FFF7_B659_4380, 0xFFFF_FFF7_B645_0510, 0xFFFF_7B63_8184_1451,
    0xFFFF_FFF7_B659_4A21, 0xFFFF_7B65_94A2_1380, 0xFFFF_7B64_505A_0A20, 0xFFFF_FFFA_6578_43B2,
    0xFFFF_FFF5_9467_2732, 0xFFFF_5942_6067_0780, 0xFFFF_6727_3245_0510, 0xFFFF_FFF7_8465_1261,
    0xFFFF_594A_6167_1731, 0xFFFF_FFFA_6578_4190, 0xFFFF_FFFA_6573_0470, 0xFFFF_FFFF_FFA6_5784,
    0xFFFF_FFF9_858B_5B65, 0xFFFF_3B0B_6065_0590, 0xFFFF_8B0B_6065_0510, 0xFFFF_FFF6_51B6_13B1,
    0xFFFF_9858_B5B6_5A21, 0xFFFF_FFFA_653B_2190, 0xFFFF_FFFA_65B2_08B0, 0xFFFF_FFFF_FFA6_53B2,
    0xFFFF_6525_9298_2832, 0xFFFF_FFF5_9065_0260, 0xFFFF_FFF6_5126_1830, 0xFFFF_FFFF_FF65_1261,
    0xFFFF_FFFA_6583_1981, 0xFFFF_FFFF_FFA6_5190, 0xFFFF_FFFF_FFA6_5830, 0xFFFF_FFFF_FFFF_FA65,
    0xFFFF_FFFF_FF7B_5BA5, 0xFFFF_FFF7_B5BA_5380, 0xFFFF_FFF7_B5BA_5910, 0xFFFF_7B5B_A538_1891,
    0xFFFF_FFF5_717B_1B21, 0xFFFF_5717_B1B2_1380, 0xFFFF_9505_707B_0B20, 0xFFFF_FFF8_9578_53B2,
    0xFFFF_FFFA_5257_2732, 0xFFFF_2A0A_5057_0780, 0xFFFF_A525_7273_2910, 0xFFFF_FFF8_9578_52A1,
    0xFFFF_FFFF_FF57_1731, 0xFFFF_FFF7_8057_0150, 0xFFFF_FFF7_3057_0950, 0xFFFF_FFFF_FF89_5785,
    0xFFFF_FFF8_B4BA_4A54, 0xFFFF_3B0B_A0A5_0540, 0xFFFF_8B4B_A4A5_4910, 0xFFFF_FFF9_54BA_13B1,
    0xFFFF_5414_818B_1B21, 0xFFFF_FFF3_B254_0150, 0xFFFF_FFF9_54B2_08B0, 0xFFFF_FFFF_FF95_43B2,
    0xFFFF_A525_4248_2832, 0xFFFF_FFF5_40A5_02A0, 0xFFFF_FFF9_542A_1830, 0xFFFF_FFFF_FF95_42A1,
    0xFFFF_FFF8_3148_1541, 0xFFFF_FFFF_FF54_0150, 0xFFFF_FFFF_FF95_4830, 0xFFFF_FFFF_FFFF_F954,
    0xFFFF_FFF7_B4BA_4A94, 0xFFFF_7B4B_A4A9_4380, 0xFFFF_4707_B0BA_0A10, 0xFFFF_FFF7_84BA_13B1,
    0xFFFF_9414_717B_1B21, 0xFFFF_FFF7_843B_2190, 0xFFFF_FFFB_207B_0470, 0xFFFF_FFFF_FF78_43B2,
    0xFFFF_A929_4247_2732, 0xFFFF_FFF7_84A9_02A0, 0xFFFF_FFF2_A173_0470, 0xFFFF_FFFF_FF78_42A1,
    0xFFFF_FFF7_3147_1941, 0xFFFF_FFFF_FF78_4190, 0xFFFF_FFFF_FF73_0470, 0xFFFF_FFFF_FFFF_F784,
    0xFFFF_FFFF_FFBA_8A98, 0xFFFF_FFFA_90BA_03B0, 0xFFFF_FFFA_10BA_08B0, 0xFFFF_FFFF_FFBA_13B1,
    0xFFFF_FFFB_218B_1981, 0xFFFF_FFFF_FF3B_2190, 0xFFFF_FFFF_FFB2_08B0, 0xFFFF_FFFF_FFFF_F3B2,
    0xFFFF_FFF8_3298_2A92, 0xFFFF_FFFF_FFA9_02A0, 0xFFFF_FFFF_FF2A_1830, 0xFFFF_FFFF_FFFF_F2A1,
    0xFFFF_FFFF_FF83_1981, 0xFFFF_FFFF_FFFF_F190, 0xFFFF_FFFF_FFFF_F830, 0xFFFF_FFFF_FFFF_FFFF,
];

/// Entry `k` of a packed row.
pub open spec fn row_entry(row: u64, k: int) -> u64 {
    (row >> ((4 * k) as u64)) & 0xF
}

/// Entry `k` of the row for `code`.
pub fn triangulation_entry(code: u8, k: u8) -> (entry: u8)
    requires
        k < 16,
    ensures
        entry == row_entry(TRIANGULATION[code as int], k as int),
        entry < 16,
{
    let row: u64 = TRIANGULATION[code as usize];
    let shift: u64 = 4 * (k as u64);
    assert((row >> shift) & 0xF < 16) by (bit_vector);
    ((row >> shift) & 0xF) as u8
}

/// Where corner `corner` sits in the unit cube.
pub open spec fn corner_offset(corner: int) -> (int, int, int) {
    if corner == 0 {
        (0, 0, 0)
    } else if corner == 1 {
        (0, 0, 1)
    } else if corner == 2 {
        (1, 0, 1)
    } else if corner == 3 {
        (1, 0, 0)
    } else if corner == 4 {
        (0, 1, 0)
    } else if corner == 5 {
        (0, 1, 1)
    } else if corner == 6 {
        (1, 1, 1)
    } else {
        (1, 1, 0)
    }
}

/// The corner that edge `edge` starts from: edges 0 to 3 run round the
/// bottom face, 4 to 7 round the top face, 8 to 11 from bottom to top.
pub open spec fn edge_start(edge: int) -> int {
    if edge < 8 {
        edge
    } else {
        edge - 8
    }
}

/// The corner that edge `edge` ends in.
pub open spec fn edge_end(edge: int) -> int {
    if edge >= 8 {
        edge - 4
    } else if edge == 3 || edge == 7 {
        edge - 3
    } else {
        edge + 1
    }
}

/// The ray along an edge: from `origin`, the place of corner `corner`, one
/// step of `dir` leads to the edge's other end.
#[derive(Clone, Copy, Debug, PartialEq, Eq, Structural)]
pub struct CornerRay {
    pub corner: u8,
    pub origin: Point3,
    pub dir: Point3,
}

/// The ray along edge `edge`, from its start to its end.
pub open spec fn edge_ray(edge: int) -> CornerRay {
    let from = corner_offset(edge_start(edge));
    let to = corner_offset(edge_end(edge));
    CornerRay {
        corner: edge_start(edge) as u8,
        origin: Point3 { x: from.0 as i64, y: from.1 as i64, z: from.2 as i64 },
        dir: Point3 { x: (to.0 - from.0) as i64, y: (to.1 - from.1) as i64, z: (to.2 - from.2) as i64 },
    }
}

/// The ray along edge `edge`.
pub fn corner_ray_from_edge(edge: u8) -> (ray: CornerRay)
    requires
        edge < EDGE_COUNT,
    ensures
        ray == edge_ray(edge as int),
        ray.corner < 8,
        ray.origin.within(1) && 0 <= ray.origin.x && 0 <= ray.origin.y && 0 <= ray.origin.z,
        ray.dir.within(1),
{
    let (corner, ox, oy, oz, dx, dy, dz): (u8, i64, i64, i64, i64, i64, i64) = match edge {
        0 => (0, 0, 0, 0, 0, 0, 1),
        1 => (1, 0, 0, 1, 1, 0, 0),
        2 => (2, 1, 0, 1, 0, 0, -1),
        3 => (3, 1, 0, 0, -1, 0, 0),
        4 => (4, 0, 1, 0, 0, 0, 1),
        5 => (5, 0, 1, 1, 1, 0, 0),
        6 => (6, 1, 1, 1, 0, 0, -1),
        7 => (7, 1, 1, 0, -1, 0, 0),
        8 => (0, 0, 0, 0, 0, 1, 0),
        9 => (1, 0, 0, 1, 0, 1, 0),
        10 => (2, 1, 0, 1, 0, 1, 0),
        _ => (3, 1, 0, 0, 0, 1, 0),
    };
    CornerRay { corner, origin: Point3 { x: ox, y: oy, z: oz }, dir: Point3 { x: dx, y: dy, z: dz } }
}

} // verus!
