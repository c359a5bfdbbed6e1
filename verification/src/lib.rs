//! Chunked forest rendering: distance culling, seeded instance placement and
//! procedural grass, computed in fixed-point arithmetic.
//!
//! Every length and coordinate is an integer count of thousandths of a world
//! unit; colour channels and blend factors are thousandths of full intensity.

pub mod error;
pub mod geometry;
pub mod culling;
pub mod scatter;
pub mod chunk_instancing;
pub mod color;
pub mod blade_mesh;
pub mod chunk_grass;
pub mod chunk;

pub use culling::DistanceCulling;
pub use error::ConfigError;
