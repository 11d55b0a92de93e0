//! Core logic of a 2D tile-based puzzle/platformer sandbox: grids, tile maps,
//! nonograms, sokoban pushing, spatial hashing and the level editor's rules.

pub mod math;
pub mod grid;
pub mod aabb_grid;
pub mod text;
pub mod collections;
pub mod nono;
pub mod tilemap;
pub mod level;
pub mod phys;
pub mod editor;
pub mod sokoban;
pub mod lifetime;
pub mod holdable;
