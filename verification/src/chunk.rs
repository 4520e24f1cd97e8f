//! One chunk of the world: its density lattice and the mesh extracted from it.
pub mod builders;
pub mod data;
pub mod march_tables;
pub mod mesh;
pub mod samplers;
