//! A multi-layer tile-grid map engine with a screen-to-tile coordinate mapper.
//!
//! The crate models a 2D tile scene: layers of tiles partitioned into fixed-size
//! chunks, a registry that keys layers by id, and the pure arithmetic that turns
//! a pointer position in window space into a tile coordinate through camera space.
//! Window management, asset loading and rendering are external collaborators: the
//! library only produces and consumes plain values.

pub mod chunk;
pub mod layer;
pub mod registry;
pub mod tile;
pub mod transform;
