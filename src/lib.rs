//! A retained-mode scene graph that lays out a tree of drawable entities on a
//! character-cell grid and composites bit-packed glyph shapes into a frame.

pub mod geometry;
pub mod layout;
pub mod shape;
pub mod tile;
pub mod canvas;
pub mod world;
pub mod deal;
