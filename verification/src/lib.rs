//! A streamable voxel world on an integer lattice.
//!
//! A density field is sampled over a regular lattice, chunk by chunk; each
//! chunk is turned into a flat-shaded triangle mesh by marching cubes; and a
//! fixed, toroidally addressed window of chunk slots follows a moving viewer,
//! handing out the nearest slot that still has to be produced.
//!
//! Every quantity is an exact integer: world coordinates are whole world
//! units, sample points are fractions with a common denominator, and mesh
//! coordinates are counted in 255ths of the chunk size.
pub mod chunk;
pub mod point;
pub mod world;

pub use chunk::data::{ChunkData, Node, NodeSampler, SamplePoint};
pub use chunk::mesh::{ChunkMesh, MeshBuilder};
pub use chunk::builders::{EmptyMeshBuilder, SimpleMeshBuilder};
pub use chunk::samplers::FlatSampler;
pub use point::{Point3, ViewPoint};
pub use world::builder::WorldCommand;
pub use world::local::{LocalWorldBackend, LocalWorldSettings};
pub use world::locator::ChunkLocator;
pub use world::pipeline::{BackendAction, BackendEvent, BackendState, ProducedChunk};
