//! The atomic grid cell and the coordinate/error types shared by the whole map.

use vstd::prelude::*;

verus! {

/// One grid cell: which sprite it draws, and whether it is drawn at all.
///
/// A tile that was never explicitly assigned renders as the default:
/// `texture_index` 0, visible.
#[derive(Clone, Copy, PartialEq, Eq, Structural, Debug)]
pub struct Tile {
    /// Index of the sprite to draw for this cell.
    pub texture_index: u32,
    /// Whether the renderer draws this cell.
    pub visible: bool,
}

impl Tile {
    /// The value every cell holds until something overwrites it.
    pub open spec fn default_spec() -> Tile {
        Tile { texture_index: 0, visible: true }
    }

    /// Constructs a visible tile with the given sprite index.
    pub fn with_texture(texture_index: u32) -> (t: Tile)
        ensures
            t == (Tile { texture_index, visible: true }),
    {
        Tile { texture_index, visible: true }
    }
}

impl Default for Tile {
    /// The default tile: sprite 0, visible.
    fn default() -> (t: Tile)
        ensures
            t == Tile::default_spec(),
    {
        Tile { texture_index: 0, visible: true }
    }
}

/// A non-negative tile coordinate: a position within a layer's full tile
/// extent, or a position local to one chunk, depending on context.
#[derive(Clone, Copy, PartialEq, Eq, Structural, Debug)]
pub struct TilePos {
    pub x: u32,
    pub y: u32,
}

impl TilePos {
    pub fn new(x: u32, y: u32) -> (p: TilePos)
        ensures
            p == (TilePos { x, y }),
    {
        TilePos { x, y }
    }
}

/// The recoverable failures of the map core.
///
/// All of them are returned to the caller; none is fatal.
#[derive(Clone, Copy, PartialEq, Eq, Structural, Debug)]
pub enum MapError {
    /// A tile coordinate lies at or beyond the addressed extent.
    OutOfBounds,
    /// A grid or chunk dimension of zero was asked for.
    InvalidDimensions,
    /// A tile operation addressed a layer id that no layer is registered under.
    MissingLayer,
}

} // verus!
