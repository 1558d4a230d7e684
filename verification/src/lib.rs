//! Core logic of a screen overlay that annotates the entities of a separately
//! running 3D simulation: decoding of the simulation's memory layout, the
//! entity directory with its name cache, and the dispatch of resolved names
//! to annotation handlers.

pub mod apiserver;
pub mod bytes;
pub mod text;
pub mod gametypes;
pub mod memory;
pub mod functionmap;
pub mod directory;
pub mod islandservice;
pub mod players;
pub mod settings;
pub mod viewtypes;
