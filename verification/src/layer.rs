//! A full grid of tiles at one draw order, composed of fixed-size chunks.
//!
//! A layer's extent in tiles is `grid_dims * chunk_dims` per axis. A global
//! tile coordinate splits into a chunk coordinate by integer division and a
//! coordinate local to that chunk by remainder; both divisions use floor
//! semantics, which coincides with truncation because coordinates are
//! unsigned here.

use vstd::arithmetic::div_mod::lemma_fundamental_div_mod;
use vstd::arithmetic::div_mod::lemma_mod_bound;
use vstd::arithmetic::mul::lemma_mul_inequality;
use vstd::prelude::*;

use crate::chunk::Chunk;
use crate::chunk::lemma_row_major_index_bounds;
use crate::chunk::lemma_row_major_index_injective;
use crate::chunk::row_major_index;
use crate::tile::MapError;
use crate::tile::Tile;
use crate::tile::TilePos;

verus! {

/// A pair of grid dimensions, counted in chunks or in tiles.
#[derive(Clone, Copy, PartialEq, Eq, Structural, Debug)]
pub struct GridDims {
    pub x: u16,
    pub y: u16,
}

/// A pair of pixel dimensions.
#[derive(Clone, Copy, PartialEq, Eq, Structural, Debug)]
pub struct PixelDims {
    pub x: u32,
    pub y: u32,
}

/// The geometry a scene builds its layers from: how many chunks a layer has,
/// how many tiles a chunk has, how large a tile is on screen, and the spacing
/// offset the renderer applies between layers.
#[derive(Clone, Copy, PartialEq, Eq, Structural, Debug)]
pub struct MapConfig {
    pub chunk_grid_dims: GridDims,
    pub chunk_tile_dims: GridDims,
    pub tile_pixel_size: PixelDims,
    pub layer_spacing_offset: PixelDims,
}

/// One grid of tiles at a given draw order, stored as a row-major grid of
/// chunks, each a row-major grid of tiles.
#[derive(Clone, Debug)]
pub struct Layer {
    /// Size of the chunk grid, in chunks; both components at least 1.
    pub grid_dims: GridDims,
    /// Size of each chunk, in tiles; both components at least 1.
    pub chunk_dims: GridDims,
    /// On-screen size of one tile, in pixels.
    pub tile_pixel_size: PixelDims,
    /// The id this layer is registered under.
    pub layer_id: u16,
    /// Draw order; typically equal to the layer id.
    pub z_order: u16,
    /// The chunks, row-major over the chunk grid.
    pub chunks: Vec<Chunk>,
    /// Whether the layer was handed to a renderer and is considered built.
    pub built: bool,
}

/// Splitting `v` by chunk length `c` lands in chunk `v / c` at offset `v % c`,
/// and the two recompose to `v`; the chunk index stays below `g` whenever `v`
/// is below the extent `g * c`.
proof fn lemma_axis_decomposition(v: int, c: int, g: int)
    requires
        1 <= c,
        1 <= g,
        0 <= v < g * c,
    ensures
        (v / c) * c + (v % c) == v,
        0 <= v / c < g,
        0 <= v % c < c,
{
    lemma_fundamental_div_mod(v, c);
    lemma_mod_bound(v, c);
    vstd::arithmetic::div_mod::lemma_div_pos_is_pos(v, c);
    vstd::arithmetic::mul::lemma_mul_is_commutative(c, v / c);
    if v / c >= g {
        lemma_mul_inequality(g, v / c, c);
        assert(g * c <= (v / c) * c);
        assert(false);
    }
}

/// Two coordinates with the same chunk index and the same local offset are the
/// same coordinate.
proof fn lemma_axis_injective(v1: int, v2: int, c: int)
    requires
        1 <= c,
        0 <= v1,
        0 <= v2,
        v1 / c == v2 / c,
        v1 % c == v2 % c,
    ensures
        v1 == v2,
{
    lemma_fundamental_div_mod(v1, c);
    lemma_fundamental_div_mod(v2, c);
}

impl Layer {
    /// The layer's full width in tiles.
    pub open spec fn extent_x(self) -> int {
        self.grid_dims.x * self.chunk_dims.x
    }

    /// The layer's full height in tiles.
    pub open spec fn extent_y(self) -> int {
        self.grid_dims.y * self.chunk_dims.y
    }

    /// Whether a tile coordinate lies inside the layer's extent.
    pub open spec fn spec_in_bounds(self, x: int, y: int) -> bool {
        0 <= x < self.extent_x() && 0 <= y < self.extent_y()
    }

    /// Which chunk column an x coordinate falls in.
    pub open spec fn chunk_col(self, x: int) -> int {
        x / (self.chunk_dims.x as int)
    }

    /// Which chunk row a y coordinate falls in.
    pub open spec fn chunk_row(self, y: int) -> int {
        y / (self.chunk_dims.y as int)
    }

    /// The x offset local to the chunk an x coordinate falls in.
    pub open spec fn local_x(self, x: int) -> int {
        x % (self.chunk_dims.x as int)
    }

    /// The y offset local to the chunk a y coordinate falls in.
    pub open spec fn local_y(self, y: int) -> int {
        y % (self.chunk_dims.y as int)
    }

    /// The position in `chunks` of the chunk holding tile coordinate `(x, y)`.
    pub open spec fn chunk_index_of(self, x: int, y: int) -> int {
        row_major_index(self.chunk_col(x), self.chunk_row(y), self.grid_dims.x as int)
    }

    /// The structural invariant: positive dimensions, a full chunk grid, and
    /// every chunk well-formed with the declared chunk dimensions.
    pub open spec fn wf(self) -> bool {
        &&& self.grid_dims.x >= 1
        &&& self.grid_dims.y >= 1
        &&& self.chunk_dims.x >= 1
        &&& self.chunk_dims.y >= 1
        &&& self.chunks@.len() == self.grid_dims.x * self.grid_dims.y
        &&& forall|i: int|
            0 <= i < self.chunks@.len() ==> {
                &&& (#[trigger] self.chunks@[i]).wf()
                &&& self.chunks@[i].width == self.chunk_dims.x
                &&& self.chunks@[i].height == self.chunk_dims.y
            }
    }

    /// The tile at an in-bounds coordinate.
    pub open spec fn tile_at(self, x: int, y: int) -> Tile {
        self.chunks@[self.chunk_index_of(x, y)].tile_at(self.local_x(x), self.local_y(y))
    }

    /// Geometry and identity agree with another layer's; the tiles may differ.
    pub open spec fn same_shape(self, other: Layer) -> bool {
        &&& self.grid_dims == other.grid_dims
        &&& self.chunk_dims == other.chunk_dims
        &&& self.tile_pixel_size == other.tile_pixel_size
        &&& self.layer_id == other.layer_id
        &&& self.z_order == other.z_order
    }

    /// Every tile of the layer equals `tile`.
    pub open spec fn spec_filled(self, tile: Tile) -> bool {
        forall|x: int, y: int| self.spec_in_bounds(x, y) ==> self.tile_at(x, y) == tile
    }
}

impl View for Layer {
    type V = Map<(int, int), Tile>;

    /// The layer as a finite map from in-bounds tile coordinates to tiles.
    open spec fn view(&self) -> Map<(int, int), Tile> {
        Map::new(|p: (int, int)| self.spec_in_bounds(p.0, p.1), |p: (int, int)| self.tile_at(p.0, p.1))
    }
}

impl Layer {
    /// Constructs a layer whose chunk grid is fully allocated and whose every
    /// tile is the default tile. Fails exactly when a grid or chunk dimension
    /// is zero.
    pub fn build(
        grid_dims: GridDims,
        chunk_dims: GridDims,
        tile_pixel_size: PixelDims,
        layer_id: u16,
        z_order: u16,
    ) -> (r: Result<Layer, MapError>)
        ensures
            grid_dims.x >= 1 && grid_dims.y >= 1 && chunk_dims.x >= 1 && chunk_dims.y >= 1 ==> {
                &&& r matches Ok(l)
                &&& l.wf()
                &&& l.grid_dims == grid_dims
                &&& l.chunk_dims == chunk_dims
                &&& l.tile_pixel_size == tile_pixel_size
                &&& l.layer_id == layer_id
                &&& l.z_order == z_order
                &&& !l.built
                &&& l.spec_filled(Tile::default_spec())
                &&& forall|i: int| 0 <= i < l.chunks@.len() ==> !(#[trigger] l.chunks@[i]).dirty
            },
            grid_dims.x == 0 || grid_dims.y == 0 || chunk_dims.x == 0 || chunk_dims.y == 0 ==> r
                == Result::<Layer, MapError>::Err(MapError::InvalidDimensions),
    {
        if grid_dims.x == 0 || grid_dims.y == 0 || chunk_dims.x == 0 || chunk_dims.y == 0 {
            return Err(MapError::InvalidDimensions);
        }
        proof {
            assert((grid_dims.x as int) * (grid_dims.y as int) <= 65535 * 65535)
                by (nonlinear_arith)
                requires
                    grid_dims.x <= 65535,
                    grid_dims.y <= 65535,
            ;
        }
        let count: usize = (grid_dims.x as usize) * (grid_dims.y as usize);
        let mut chunks: Vec<Chunk> = Vec::new();
        let mut i: usize = 0;
        while i < count
            invariant
                i <= count,
                count == grid_dims.x * grid_dims.y,
                chunk_dims.x >= 1,
                chunk_dims.y >= 1,
                chunks@.len() == i,
                forall|j: int|
                    0 <= j < i ==> {
                        &&& (#[trigger] chunks@[j]).wf()
                        &&& chunks@[j].width == chunk_dims.x
                        &&& chunks@[j].height == chunk_dims.y
                        &&& !chunks@[j].dirty
                    },
                forall|j: int, x: int, y: int|
                    0 <= j < i && chunks@[j].spec_in_bounds(x, y) ==> #[trigger] chunks@[j].tile_at(
                        x,
                        y,
                    ) == Tile::default_spec(),
            decreases count - i,
        {
            match Chunk::allocate(chunk_dims.x, chunk_dims.y) {
                Ok(c) => chunks.push(c),
                Err(e) => {
                    return Err(e);
                },
            }
            i = i + 1;
        }
        let l = Layer {
            grid_dims,
            chunk_dims,
            tile_pixel_size,
            layer_id,
            z_order,
            chunks,
            built: false,
        };
        proof {
            assert forall|x: int, y: int| l.spec_in_bounds(x, y) implies l.tile_at(x, y)
                == Tile::default_spec() by {
                lemma_chunk_partition(l, x, y);
            }
        }
        Ok(l)
    }

    /// The layer's full extent in tiles, width then height.
    pub fn extent(&self) -> (e: (u32, u32))
        requires
            self.wf(),
        ensures
            e.0 == self.extent_x(),
            e.1 == self.extent_y(),
    {
        proof {
            assert((self.grid_dims.x as int) * (self.chunk_dims.x as int) <= 65535 * 65535
                && (self.grid_dims.y as int) * (self.chunk_dims.y as int) <= 65535 * 65535)
                by (nonlinear_arith)
                requires
                    self.grid_dims.x <= 65535,
                    self.grid_dims.y <= 65535,
                    self.chunk_dims.x <= 65535,
                    self.chunk_dims.y <= 65535,
            ;
        }
        (
            (self.grid_dims.x as u32) * (self.chunk_dims.x as u32),
            (self.grid_dims.y as u32) * (self.chunk_dims.y as u32),
        )
    }

    /// Translates a global tile coordinate to its chunk and local coordinate
    /// and reads the tile there. Fails exactly when the coordinate lies at or
    /// beyond the layer's extent.
    pub fn get_tile(&self, pos: TilePos) -> (r: Result<Tile, MapError>)
        requires
            self.wf(),
        ensures
            self.spec_in_bounds(pos.x as int, pos.y as int) ==> r == Result::<Tile, MapError>::Ok(
                self@[(pos.x as int, pos.y as int)],
            ),
            !self.spec_in_bounds(pos.x as int, pos.y as int) ==> r == Result::<Tile, MapError>::Err(
                MapError::OutOfBounds,
            ),
    {
        proof {
            assert((self.grid_dims.x as int) * (self.chunk_dims.x as int) <= 65535 * 65535
                && (self.grid_dims.y as int) * (self.chunk_dims.y as int) <= 65535 * 65535
                && (self.grid_dims.x as int) * (self.grid_dims.y as int) <= 65535 * 65535)
                by (nonlinear_arith)
                requires
                    self.grid_dims.x <= 65535,
                    self.grid_dims.y <= 65535,
                    self.chunk_dims.x <= 65535,
                    self.chunk_dims.y <= 65535,
            ;
        }
        let extent_x: u32 = (self.grid_dims.x as u32) * (self.chunk_dims.x as u32);
        let extent_y: u32 = (self.grid_dims.y as u32) * (self.chunk_dims.y as u32);
        if pos.x >= extent_x || pos.y >= extent_y {
            return Err(MapError::OutOfBounds);
        }
        proof {
            lemma_chunk_partition(*self, pos.x as int, pos.y as int);
        }
        let cw: u32 = self.chunk_dims.x as u32;
        let ch: u32 = self.chunk_dims.y as u32;
        let cx: u32 = pos.x / cw;
        let cy: u32 = pos.y / ch;
        let lx: u32 = pos.x % cw;
        let ly: u32 = pos.y % ch;
        let ci: usize = (cy as usize) * (self.grid_dims.x as usize) + (cx as usize);
        let r = self.chunks[ci].get(TilePos { x: lx, y: ly });
        proof {
            assert(self@[(pos.x as int, pos.y as int)] == self.tile_at(pos.x as int, pos.y as int));
        }
        r
    }

    /// Translates a global tile coordinate to its chunk and local coordinate
    /// and overwrites the tile there, marking that chunk dirty. Fails exactly
    /// when the coordinate lies at or beyond the layer's extent, and then
    /// changes nothing.
    pub fn set_tile(&mut self, pos: TilePos, tile: Tile) -> (r: Result<(), MapError>)
        requires
            old(self).wf(),
        ensures
            final(self).wf(),
            final(self).same_shape(*old(self)),
            final(self).built == old(self).built,
            old(self).spec_in_bounds(pos.x as int, pos.y as int) ==> {
                &&& r == Result::<(), MapError>::Ok(())
                &&& final(self)@ == old(self)@.insert((pos.x as int, pos.y as int), tile)
            },
            !old(self).spec_in_bounds(pos.x as int, pos.y as int) ==> {
                &&& r == Result::<(), MapError>::Err(MapError::OutOfBounds)
                &&& *final(self) == *old(self)
            },
    {
        proof {
            assert((self.grid_dims.x as int) * (self.chunk_dims.x as int) <= 65535 * 65535
                && (self.grid_dims.y as int) * (self.chunk_dims.y as int) <= 65535 * 65535
                && (self.grid_dims.x as int) * (self.grid_dims.y as int) <= 65535 * 65535)
                by (nonlinear_arith)
                requires
                    self.grid_dims.x <= 65535,
                    self.grid_dims.y <= 65535,
                    self.chunk_dims.x <= 65535,
                    self.chunk_dims.y <= 65535,
            ;
        }
        let extent_x: u32 = (self.grid_dims.x as u32) * (self.chunk_dims.x as u32);
        let extent_y: u32 = (self.grid_dims.y as u32) * (self.chunk_dims.y as u32);
        if pos.x >= extent_x || pos.y >= extent_y {
            return Err(MapError::OutOfBounds);
        }
        proof {
            lemma_chunk_partition(*self, pos.x as int, pos.y as int);
        }
        let cw: u32 = self.chunk_dims.x as u32;
        let ch: u32 = self.chunk_dims.y as u32;
        let cx: u32 = pos.x / cw;
        let cy: u32 = pos.y / ch;
        let lx: u32 = pos.x % cw;
        let ly: u32 = pos.y % ch;
        let ci: usize = (cy as usize) * (self.grid_dims.x as usize) + (cx as usize);
        let r0 = self.chunks[ci].set(TilePos { x: lx, y: ly }, tile);
        proof {
            let x = pos.x as int;
            let y = pos.y as int;
            let lold = *old(self);
            assert(r0 == Result::<(), MapError>::Ok(()));
            lemma_row_major_index_bounds(
                lold.local_x(x),
                lold.local_y(y),
                lold.chunk_dims.x as int,
                lold.chunk_dims.y as int,
            );
            assert forall|p: (int, int)|
                lold.spec_in_bounds(p.0, p.1) && p != ((x, y)) implies self.tile_at(p.0, p.1)
                == lold.tile_at(p.0, p.1) by {
                lemma_chunk_partition(lold, p.0, p.1);
                let ci2 = lold.chunk_index_of(p.0, p.1);
                if ci2 == ci {
                    lemma_row_major_index_injective(
                        lold.chunk_col(p.0),
                        lold.chunk_row(p.1),
                        lold.chunk_col(x),
                        lold.chunk_row(y),
                        lold.grid_dims.x as int,
                    );
                    let cw_int = lold.chunk_dims.x as int;
                    let li = row_major_index(lold.local_x(x), lold.local_y(y), cw_int);
                    let li2 = row_major_index(lold.local_x(p.0), lold.local_y(p.1), cw_int);
                    if li2 == li {
                        lemma_row_major_index_injective(
                            lold.local_x(p.0),
                            lold.local_y(p.1),
                            lold.local_x(x),
                            lold.local_y(y),
                            cw_int,
                        );
                        lemma_chunk_partition_injective(lold, p.0, p.1, x, y);
                        assert(false);
                    }
                    lemma_row_major_index_bounds(
                        lold.local_x(p.0),
                        lold.local_y(p.1),
                        lold.chunk_dims.x as int,
                        lold.chunk_dims.y as int,
                    );
                    assert(self.chunks@[ci2].tiles@[li2] == lold.chunks@[ci2].tiles@[li2]);
                }
            }
            assert(self.tile_at(x, y) == tile);
            assert(self@ =~= lold@.insert((x, y), tile));
        }
        r0
    }

    /// Fills every tile in every chunk with a copy of `tile`, marking every
    /// chunk dirty. Flood-fills a base terrain layer in one call.
    pub fn set_all(&mut self, tile: Tile)
        requires
            old(self).wf(),
        ensures
            final(self).wf(),
            final(self).same_shape(*old(self)),
            final(self).built == old(self).built,
            final(self).spec_filled(tile),
            forall|i: int|
                0 <= i < final(self).chunks@.len() ==> (#[trigger] final(self).chunks@[i]).dirty,
    {
        let count: usize = self.chunks.len();
        let mut i: usize = 0;
        while i < count
            invariant
                i <= count,
                count == self.chunks@.len(),
                self.grid_dims == old(self).grid_dims,
                self.chunk_dims == old(self).chunk_dims,
                self.tile_pixel_size == old(self).tile_pixel_size,
                self.layer_id == old(self).layer_id,
                self.z_order == old(self).z_order,
                self.built == old(self).built,
                self.chunks@.len() == old(self).chunks@.len(),
                old(self).wf(),
                forall|j: int|
                    0 <= j < self.chunks@.len() ==> {
                        &&& (#[trigger] self.chunks@[j]).wf()
                        &&& self.chunks@[j].width == self.chunk_dims.x
                        &&& self.chunks@[j].height == self.chunk_dims.y
                    },
                forall|j: int| 0 <= j < i ==> (#[trigger] self.chunks@[j]).dirty,
                forall|j: int, x: int, y: int|
                    0 <= j < i && self.chunks@[j].spec_in_bounds(x, y)
                        ==> #[trigger] self.chunks@[j].tile_at(x, y) == tile,
            decreases count - i,
        {
            self.chunks[i].set_all(tile);
            i = i + 1;
        }
        proof {
            assert forall|x: int, y: int| self.spec_in_bounds(x, y) implies self.tile_at(x, y)
                == tile by {
                lemma_chunk_partition(*self, x, y);
            }
        }
    }

    /// Marks the layer built and every chunk clean, leaving every tile as it
    /// was: the point where a renderer has taken the populated chunk grid.
    pub fn finalize(&mut self)
        requires
            old(self).wf(),
        ensures
            final(self).wf(),
            final(self).same_shape(*old(self)),
            final(self).built,
            final(self)@ == old(self)@,
            forall|i: int|
                0 <= i < final(self).chunks@.len() ==> !(#[trigger] final(self).chunks@[i]).dirty,
    {
        let count: usize = self.chunks.len();
        let mut i: usize = 0;
        while i < count
            invariant
                i <= count,
                count == self.chunks@.len(),
                self.grid_dims == old(self).grid_dims,
                self.chunk_dims == old(self).chunk_dims,
                self.tile_pixel_size == old(self).tile_pixel_size,
                self.layer_id == old(self).layer_id,
                self.z_order == old(self).z_order,
                self.built == old(self).built,
                self.chunks@.len() == old(self).chunks@.len(),
                forall|j: int|
                    0 <= j < i ==> #[trigger] self.chunks@[j] == (Chunk {
                        dirty: false,
                        ..old(self).chunks@[j]
                    }),
                forall|j: int| i <= j < count ==> #[trigger] self.chunks@[j] == old(
                    self,
                ).chunks@[j],
            decreases count - i,
        {
            self.chunks[i].mark_clean();
            i = i + 1;
        }
        self.built = true;
        proof {
            assert forall|x: int, y: int| old(self).spec_in_bounds(x, y) implies self.tile_at(x, y)
                == old(self).tile_at(x, y) by {
                lemma_chunk_partition(*old(self), x, y);
            }
            assert(self@ =~= old(self)@);
        }
    }
}

/// Round trip of writing and reading: after a write of `tile` at an in-bounds
/// coordinate — `set_tile` leaves the view `before@.insert((x, y), tile)` —
/// the view holds `tile` at that coordinate, which is what `get_tile` returns.
pub proof fn lemma_set_get_round_trip(before: Layer, after: Layer, x: int, y: int, tile: Tile)
    requires
        before.wf(),
        before.spec_in_bounds(x, y),
        after@ == before@.insert((x, y), tile),
    ensures
        after@[(x, y)] == tile,
{
}

/// Fill idempotence: filling a grid with `tile` a second time yields exactly
/// the grid one fill yields — any two same-shape grids filled with `tile`
/// have equal views.
pub proof fn lemma_fill_idempotent(once: Layer, twice: Layer, tile: Tile)
    requires
        once.wf(),
        twice.wf(),
        once.same_shape(twice),
        once.spec_filled(tile),
        twice.spec_filled(tile),
    ensures
        once@ == twice@,
{
    assert forall|p: (int, int)| once.spec_in_bounds(p.0, p.1) implies once.tile_at(p.0, p.1)
        == twice.tile_at(p.0, p.1) by {
        assert(once.tile_at(p.0, p.1) == tile);
        assert(twice.spec_in_bounds(p.0, p.1));
        assert(twice.tile_at(p.0, p.1) == tile);
    }
    assert(once@ =~= twice@);
}

/// Chunk partition completeness: an in-bounds tile coordinate determines one
/// chunk within the chunk grid and one offset within that chunk, and chunk
/// coordinate times chunk size plus offset recomposes the tile coordinate.
pub proof fn lemma_chunk_partition(l: Layer, x: int, y: int)
    requires
        l.wf(),
        l.spec_in_bounds(x, y),
    ensures
        l.chunk_col(x) * l.chunk_dims.x + l.local_x(x) == x,
        l.chunk_row(y) * l.chunk_dims.y + l.local_y(y) == y,
        0 <= l.chunk_col(x) < l.grid_dims.x,
        0 <= l.chunk_row(y) < l.grid_dims.y,
        0 <= l.local_x(x) < l.chunk_dims.x,
        0 <= l.local_y(y) < l.chunk_dims.y,
        0 <= l.chunk_index_of(x, y) < l.chunks@.len(),
{
    lemma_axis_decomposition(x, l.chunk_dims.x as int, l.grid_dims.x as int);
    lemma_axis_decomposition(y, l.chunk_dims.y as int, l.grid_dims.y as int);
    lemma_row_major_index_bounds(
        l.chunk_col(x),
        l.chunk_row(y),
        l.grid_dims.x as int,
        l.grid_dims.y as int,
    );
}

/// Distinct in-bounds tile coordinates never share both their chunk index and
/// their local offsets: the chunks partition the layer.
pub proof fn lemma_chunk_partition_injective(l: Layer, x1: int, y1: int, x2: int, y2: int)
    requires
        l.wf(),
        l.spec_in_bounds(x1, y1),
        l.spec_in_bounds(x2, y2),
        l.chunk_index_of(x1, y1) == l.chunk_index_of(x2, y2),
        l.local_x(x1) == l.local_x(x2),
        l.local_y(y1) == l.local_y(y2),
    ensures
        x1 == x2,
        y1 == y2,
{
    lemma_chunk_partition(l, x1, y1);
    lemma_chunk_partition(l, x2, y2);
    lemma_row_major_index_injective(
        l.chunk_col(x1),
        l.chunk_row(y1),
        l.chunk_col(x2),
        l.chunk_row(y2),
        l.grid_dims.x as int,
    );
    lemma_axis_injective(x1, x2, l.chunk_dims.x as int);
    lemma_axis_injective(y1, y2, l.chunk_dims.y as int);
}

} // verus!
