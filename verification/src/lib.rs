//! Surface reconstruction from unordered 3D point clouds.
//!
//! The library works on fixed-point coordinates: every position is an
//! integer triple in caller-chosen units, and every direction is an
//! integer triple scaled so that a unit vector has length close to
//! [`scalar::NORMAL_SCALE`]. The pipeline builds a spatial search index,
//! estimates per-point normals by principal component analysis, sorts the
//! points into a sparse voxel grid, and extracts a triangle mesh from the
//! signed-distance field with the Marching Cubes table method.

pub mod algorithm;
pub mod bounding_box;
pub mod channel;
pub mod hash_grid;
pub mod marching_cubes;
pub mod matrix;
pub mod mc_table;
pub mod mesh_buffer;
pub mod normal;
pub mod normals;
pub mod plane;
pub mod point_buffer;
pub mod progress;
pub mod reconstruction;
pub mod scalar;
pub mod search_tree;
pub mod vector;

pub use scalar::NORMAL_SCALE;
