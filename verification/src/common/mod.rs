pub mod constants;
pub mod coords;
pub mod coords_conversions;
pub mod coords_iterators;
pub mod coords_neighbours;
pub mod coords_neighbours_iter;
pub mod indexing;
pub mod math;
pub mod vertex;
pub mod voxel_material;
pub mod voxels;
