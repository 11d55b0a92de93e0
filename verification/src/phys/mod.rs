//! Movement rules, terrain interaction and spatial hashing.

pub mod movement;
pub mod spatial;
pub mod terrain;
