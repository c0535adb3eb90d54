//! Destructible solids on a dense voxel grid.
//!
//! A solid is a cubic field of signed densities: a voxel is solid where its
//! density is not negative. The crate extracts the surface of a field as a
//! list of triangles (`marching_cubes`), shrinks and grows fields around
//! their solid part, carves material out of a field or fills material in,
//! and splits a carved field into its connected pieces
//! (`procedural_entity`). `entity_deform` handles one hit on a solid from
//! the deformation to the finished pieces, and `entity_mesh` lays the
//! triangles out in buffers.
//!
//! All numbers are integers. Densities, positions and normals are
//! fixed-point values that count thousandths: a density of one is `1000`,
//! the middle of the first cell is `(500, 500, 500)`, and a unit normal has
//! the length `1000`.

pub mod common;
pub mod entity_deform;
pub mod entity_mesh;
pub mod marching_cubes;
pub mod procedural_entity;
