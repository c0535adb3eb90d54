use vstd::prelude::*;
use crate::common::constants::SCALE;
use crate::common::coords::{Coords, VoxelCoords};
use crate::common::indexing::{delinearize, index_x, index_y, index_z, lemma_volume_bound, volume};
use crate::common::math::{integer_sqrt, isqrt};
use crate::common::voxel_material::VoxelMaterial;
use crate::common::voxels::Voxel;
use crate::procedural_entity::ProceduralEntity;

verus! {

/// Radius, in thousandths, of the two spheres that `generate_voxels` cuts.
pub const SPHERE_RADIUS: i32 = 15000;

/// How far, in voxels, the centres of the two spheres lie from the middle
/// of the field along each axis.
pub const SPHERE_SHIFT: u8 = 3;

/// Signed distance, in thousandths, from the voxel `pos` to the surface of
/// the sphere of `radius` thousandths around the voxel `center`: negative
/// inside the sphere. The distance between the voxels is rounded down to a
/// whole thousandth.
pub open spec fn sphere_distance(pos: Coords<int>, center: Coords<int>, radius: int) -> int {
    let dx = center.x - pos.x;
    let dy = center.y - pos.y;
    let dz = center.z - pos.z;
    integer_sqrt((dx * dx + dy * dy + dz * dz) * (SCALE * SCALE)) - radius
}

/// The density that `generate_voxels` gives the voxel `pos` of a field of
/// edge length `size`: solid where both spheres overlap, and the deeper
/// inside both the greater.
pub open spec fn generated_value(size: int, pos: Coords<int>) -> int {
    let low = size / 2 - SPHERE_SHIFT;
    let high = size / 2 + SPHERE_SHIFT;
    let first = sphere_distance(pos, Coords { x: low, y: low, z: low }, SPHERE_RADIUS as int);
    let second = sphere_distance(pos, Coords { x: high, y: high, z: high }, SPHERE_RADIUS as int);
    if first >= second {
        -first
    } else {
        -second
    }
}

/// The field that `generate_voxels` makes for the edge length `size`.
pub open spec fn generated_field(size: int) -> Seq<Voxel> {
    Seq::new(
        volume(size) as nat,
        |i: int|
            Voxel {
                value: generated_value(
                    size,
                    Coords { x: index_x(size, i), y: index_y(size, i), z: index_z(size, i) },
                ) as i32,
                material: VoxelMaterial::AIR,
            },
    )
}

impl ProceduralEntity {
    /// Signed distance from `pos` to the sphere of `radius` around
    /// `center`, in thousandths.
    pub fn sdf_sphere(pos: VoxelCoords, center: VoxelCoords, radius: i32) -> (distance: i32)
        requires
            -2_000_000_000 <= radius <= 2_000_000_000,
        ensures
            distance == sphere_distance(pos.ints(), center.ints(), radius as int),
            -radius <= distance <= 441_673 - radius,
    {
        let diff = center - pos;
        proof {
            crate::common::coords::lemma_product_bound(diff.x as int, diff.x as int, 255);
            crate::common::coords::lemma_product_bound(diff.y as int, diff.y as int, 255);
            crate::common::coords::lemma_product_bound(diff.z as int, diff.z as int, 255);
            assert(diff.x * diff.x >= 0 && diff.y * diff.y >= 0 && diff.z * diff.z >= 0)
                by (nonlinear_arith);
        }
        let squares: i32 = diff.x * diff.x + diff.y * diff.y + diff.z * diff.z;
        let scaled: u64 = squares as u64 * 1_000_000;
        let dist = isqrt(scaled);
        proof {
            assert(dist <= 441_673) by (nonlinear_arith)
                requires
                    dist * dist <= scaled,
                    scaled <= 195_075_000_000,
                    0 <= dist,
            ;
        }
        (dist as i64 - radius as i64) as i32
    }

    /// Fills the field with the overlap of two spheres of radius 15 whose
    /// centres lie three voxels below and three voxels above the middle of
    /// the field along every axis.
    pub fn generate_voxels(&mut self)
        requires
            6 <= old(self).field_size <= 255,
        ensures
            final(self).wf(),
            final(self).field_size == old(self).field_size,
            final(self).voxel_field@ == generated_field(old(self).field_size as int),
            final(self).vertices == old(self).vertices,
            final(self).modification_count == old(self).modification_count,
            final(self).modification_threshold == old(self).modification_threshold,
    {
        let size = self.field_size;
        proof {
            lemma_volume_bound(size as int);
        }
        let count: usize = size * size * size;
        let half: u8 = size as u8 / 2;
        let center1 = VoxelCoords::new(half - SPHERE_SHIFT, half - SPHERE_SHIFT, half - SPHERE_SHIFT);
        let center2 = VoxelCoords::new(half + SPHERE_SHIFT, half + SPHERE_SHIFT, half + SPHERE_SHIFT);
        let mut voxel_field: Vec<Voxel> = Vec::new();
        let mut i: usize = 0;
        while i < count
            invariant
                6 <= size <= 255,
                count == volume(size as int),
                i <= count,
                voxel_field.len() == i,
                center1.ints() == (Coords::<int> {
                    x: size as int / 2 - SPHERE_SHIFT,
                    y: size as int / 2 - SPHERE_SHIFT,
                    z: size as int / 2 - SPHERE_SHIFT,
                }),
                center2.ints() == (Coords::<int> {
                    x: size as int / 2 + SPHERE_SHIFT,
                    y: size as int / 2 + SPHERE_SHIFT,
                    z: size as int / 2 + SPHERE_SHIFT,
                }),
                forall|j: int|
                    0 <= j < i ==> #[trigger] voxel_field[j] == generated_field(size as int)[j],
            decreases count - i,
        {
            let curr = delinearize(size, i);
            let first = Self::sdf_sphere(curr, center1, SPHERE_RADIUS);
            let second = Self::sdf_sphere(curr, center2, SPHERE_RADIUS);
            let dist = if first >= second {
                first
            } else {
                second
            };
            voxel_field.push(Voxel { value: -dist, material: VoxelMaterial::AIR });
            i += 1;
        }
        assert(voxel_field@ =~= generated_field(size as int));
        self.voxel_field = voxel_field;
    }
}

} // verus!
