//! Block storage, world layout and meshing for a voxel engine.

pub mod arith;
pub mod chunk;
pub mod mesh;
pub mod world;
pub mod raycast;
pub mod face_laws;
