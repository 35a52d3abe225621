//! Fixed-size rectangular sub-grids of tiles: the unit of dirty-tracking.
//!
//! A chunk stores `width * height` tiles in row-major order. Setting any tile
//! marks the whole chunk dirty, so a renderer re-uploads only the sub-grids
//! that changed.

use vstd::prelude::*;

use crate::tile::MapError;
use crate::tile::Tile;
use crate::tile::TilePos;

verus! {

/// A `width` x `height` sub-grid of tiles, stored row-major.
#[derive(Clone, Debug)]
pub struct Chunk {
    /// Width in tiles; at least 1.
    pub width: u16,
    /// Height in tiles; at least 1.
    pub height: u16,
    /// The tiles, row-major: the tile at local `(x, y)` sits at `y * width + x`.
    pub tiles: Vec<Tile>,
    /// Whether a tile changed since the chunk was last handed to a renderer.
    pub dirty: bool,
}

/// The row-major position of local `(x, y)` in a chunk of width `w`.
pub open spec fn row_major_index(x: int, y: int, w: int) -> int {
    y * w + x
}

/// A row-major index stays inside the buffer of a `w` x `h` grid.
pub proof fn lemma_row_major_index_bounds(x: int, y: int, w: int, h: int)
    requires
        0 <= x < w,
        0 <= y < h,
    ensures
        0 <= row_major_index(x, y, w) < w * h,
{
    assert(0 <= y * w + x < w * h) by (nonlinear_arith)
        requires
            0 <= x < w,
            0 <= y < h,
    ;
}

/// Distinct in-bounds local coordinates occupy distinct row-major slots.
pub proof fn lemma_row_major_index_injective(x1: int, y1: int, x2: int, y2: int, w: int)
    requires
        0 <= x1 < w,
        0 <= x2 < w,
        0 <= y1,
        0 <= y2,
        row_major_index(x1, y1, w) == row_major_index(x2, y2, w),
    ensures
        x1 == x2,
        y1 == y2,
{
    assert(x1 == x2 && y1 == y2) by (nonlinear_arith)
        requires
            0 <= x1 < w,
            0 <= x2 < w,
            0 <= y1,
            0 <= y2,
            y1 * w + x1 == y2 * w + x2,
    ;
}

impl Chunk {
    /// The structural invariant: positive dimensions and a full backing buffer.
    pub open spec fn wf(self) -> bool {
        &&& self.width >= 1
        &&& self.height >= 1
        &&& self.tiles@.len() == self.width * self.height
    }

    /// Whether a local coordinate lies inside this chunk.
    pub open spec fn spec_in_bounds(self, x: int, y: int) -> bool {
        0 <= x < self.width && 0 <= y < self.height
    }

    /// The tile at an in-bounds local coordinate.
    pub open spec fn tile_at(self, x: int, y: int) -> Tile {
        self.tiles@[row_major_index(x, y, self.width as int)]
    }

    /// Width and height agree with another chunk's.
    pub open spec fn same_dims(self, other: Chunk) -> bool {
        self.width == other.width && self.height == other.height
    }

    /// Allocates a `width` x `height` chunk with every tile set to the default
    /// tile and no pending upload. Fails exactly when a dimension is zero.
    pub fn allocate(width: u16, height: u16) -> (r: Result<Chunk, MapError>)
        ensures
            width >= 1 && height >= 1 ==> {
                &&& r matches Ok(c)
                &&& c.wf()
                &&& c.width == width
                &&& c.height == height
                &&& !c.dirty
                &&& forall|x: int, y: int|
                    c.spec_in_bounds(x, y) ==> c.tile_at(x, y) == Tile::default_spec()
            },
            width == 0 || height == 0 ==> r == Result::<Chunk, MapError>::Err(
                MapError::InvalidDimensions,
            ),
    {
        if width == 0 || height == 0 {
            return Err(MapError::InvalidDimensions);
        }
        proof {
            assert((width as int) * (height as int) <= 65535 * 65535) by (nonlinear_arith)
                requires
                    width <= 65535,
                    height <= 65535,
            ;
        }
        let count: usize = (width as usize) * (height as usize);
        let mut tiles: Vec<Tile> = Vec::new();
        let mut i: usize = 0;
        while i < count
            invariant
                i <= count,
                count == width * height,
                tiles@.len() == i,
                forall|j: int| 0 <= j < i ==> tiles@[j] == Tile::default_spec(),
            decreases count - i,
        {
            tiles.push(Tile::default());
            i = i + 1;
        }
        let c = Chunk { width, height, tiles, dirty: false };
        proof {
            assert forall|x: int, y: int| c.spec_in_bounds(x, y) implies c.tile_at(x, y)
                == Tile::default_spec() by {
                lemma_row_major_index_bounds(x, y, width as int, height as int);
            }
        }
        Ok(c)
    }

    /// Reads the tile at a coordinate local to this chunk. Fails exactly when
    /// the coordinate exceeds the chunk's dimensions.
    pub fn get(&self, local: TilePos) -> (r: Result<Tile, MapError>)
        requires
            self.wf(),
        ensures
            self.spec_in_bounds(local.x as int, local.y as int) ==> r == Result::<
                Tile,
                MapError,
            >::Ok(self.tile_at(local.x as int, local.y as int)),
            !self.spec_in_bounds(local.x as int, local.y as int) ==> r == Result::<
                Tile,
                MapError,
            >::Err(MapError::OutOfBounds),
    {
        if local.x >= self.width as u32 || local.y >= self.height as u32 {
            return Err(MapError::OutOfBounds);
        }
        proof {
            lemma_row_major_index_bounds(
                local.x as int,
                local.y as int,
                self.width as int,
                self.height as int,
            );
            assert((self.width as int) * (self.height as int) <= 65535 * 65535)
                by (nonlinear_arith)
                requires
                    self.width <= 65535,
                    self.height <= 65535,
            ;
        }
        let idx: usize = (local.y as usize) * (self.width as usize) + (local.x as usize);
        Ok(self.tiles[idx])
    }

    /// Overwrites the tile at a local coordinate and marks the chunk dirty.
    /// Fails exactly when the coordinate exceeds the chunk's dimensions, and
    /// then changes nothing.
    pub fn set(&mut self, local: TilePos, tile: Tile) -> (r: Result<(), MapError>)
        requires
            old(self).wf(),
        ensures
            final(self).wf(),
            final(self).same_dims(*old(self)),
            old(self).spec_in_bounds(local.x as int, local.y as int) ==> {
                &&& r == Result::<(), MapError>::Ok(())
                &&& final(self).tiles@ == old(self).tiles@.update(
                    row_major_index(local.x as int, local.y as int, old(self).width as int),
                    tile,
                )
                &&& final(self).dirty
            },
            !old(self).spec_in_bounds(local.x as int, local.y as int) ==> {
                &&& r == Result::<(), MapError>::Err(MapError::OutOfBounds)
                &&& *final(self) == *old(self)
            },
    {
        if local.x >= self.width as u32 || local.y >= self.height as u32 {
            return Err(MapError::OutOfBounds);
        }
        proof {
            lemma_row_major_index_bounds(
                local.x as int,
                local.y as int,
                self.width as int,
                self.height as int,
            );
            assert((self.width as int) * (self.height as int) <= 65535 * 65535)
                by (nonlinear_arith)
                requires
                    self.width <= 65535,
                    self.height <= 65535,
            ;
        }
        let idx: usize = (local.y as usize) * (self.width as usize) + (local.x as usize);
        self.tiles[idx] = tile;
        self.dirty = true;
        Ok(())
    }

    /// Fills every tile of the chunk with a copy of `tile` and marks the chunk
    /// dirty.
    pub fn set_all(&mut self, tile: Tile)
        requires
            old(self).wf(),
        ensures
            final(self).wf(),
            final(self).same_dims(*old(self)),
            final(self).dirty,
            forall|x: int, y: int|
                final(self).spec_in_bounds(x, y) ==> final(self).tile_at(x, y) == tile,
    {
        let mut i: usize = 0;
        let count: usize = self.tiles.len();
        while i < count
            invariant
                i <= count,
                count == self.tiles@.len(),
                self.tiles@.len() == old(self).tiles@.len(),
                self.width == old(self).width,
                self.height == old(self).height,
                self.dirty == old(self).dirty,
                forall|j: int| 0 <= j < i ==> self.tiles@[j] == tile,
            decreases count - i,
        {
            self.tiles[i] = tile;
            i = i + 1;
        }
        self.dirty = true;
        proof {
            assert forall|x: int, y: int| self.spec_in_bounds(x, y) implies self.tile_at(x, y)
                == tile by {
                lemma_row_major_index_bounds(x, y, self.width as int, self.height as int);
            }
        }
    }

    /// Clears the dirty flag once a renderer has taken the chunk's contents.
    pub fn mark_clean(&mut self)
        ensures
            *final(self) == (Chunk { dirty: false, ..*old(self) }),
    {
        self.dirty = false;
    }
}

} // verus!
