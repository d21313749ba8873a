//! Voxel terrain generation on fixed-point values: a noise-driven height field,
//! a voxel classifier, a chunk filler and a heightmap preview, together with the
//! pixel types of a falling-sand grid.

pub mod chunk;
pub mod fixed;
pub mod pixel;
pub mod terrain;
