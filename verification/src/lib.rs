//! Procedural dungeon-map generation.
//!
//! The heart of the crate is a builder pipeline: an ordered chain of
//! independent generation steps that transform a shared mutable map-building
//! context.  Each step applies one algorithm (cellular-automata carving,
//! room/corridor carving, Voronoi spawn placement, wave-function-collapse
//! restyling, reachability culling, prefab stamping, start/end selection),
//! and the chain records a snapshot after every step so a finished build can
//! be replayed for visualization.  Generation is driven by a seeded random
//! source threaded through the chain, so a given seed and chain configuration
//! always rebuild the same level.

pub mod map;
pub mod map_builders;
pub mod menu;
pub mod rect;
pub mod rng;
pub mod spatial;
pub mod spawn_table;
