//! Core of a scene-graph renderer: a store of vector shapes addressed by
//! 128-bit identifiers, a single-slot mutation cursor, and a depth-first
//! traversal that turns the tree into an ordered list of canvas operations.
//! The operations are plain data; a thin host layer replays them against an
//! actual drawing surface.

pub mod ident;
pub mod render;
pub mod shapes;
pub mod state;
