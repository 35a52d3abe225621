use tile_access::chunk::Chunk;
use tile_access::layer::GridDims;
use tile_access::layer::Layer;
use tile_access::layer::MapConfig;
use tile_access::layer::PixelDims;
use tile_access::registry::TileMap;
use tile_access::tile::MapError;
use tile_access::tile::Tile;
use tile_access::tile::TilePos;

fn demo_config() -> MapConfig {
    MapConfig {
        chunk_grid_dims: GridDims { x: 1, y: 1 },
        chunk_tile_dims: GridDims { x: 5, y: 5 },
        tile_pixel_size: PixelDims { x: 32, y: 32 },
        layer_spacing_offset: PixelDims { x: 96, y: 32 },
    }
}

fn demo_layer(layer_id: u16, z_order: u16) -> Layer {
    let cfg = demo_config();
    Layer::build(
        cfg.chunk_grid_dims,
        cfg.chunk_tile_dims,
        cfg.tile_pixel_size,
        layer_id,
        z_order,
    )
    .expect("positive dimensions build")
}

#[test]
fn default_tile_is_texture_zero_and_visible() {
    let t = Tile::default();
    assert_eq!(t.texture_index, 0);
    assert!(t.visible);
    assert_eq!(t, Tile::with_texture(0));
}

#[test]
fn allocate_rejects_zero_dimensions() {
    assert_eq!(Chunk::allocate(0, 3).unwrap_err(), MapError::InvalidDimensions);
    assert_eq!(Chunk::allocate(3, 0).unwrap_err(), MapError::InvalidDimensions);
}

#[test]
fn allocate_fills_with_default_tiles() {
    let c = Chunk::allocate(4, 3).unwrap();
    assert!(!c.dirty);
    for y in 0..3 {
        for x in 0..4 {
            assert_eq!(c.get(TilePos::new(x, y)).unwrap(), Tile::default());
        }
    }
}

#[test]
fn chunk_set_and_get_local() {
    let mut c = Chunk::allocate(2, 2).unwrap();
    c.set(TilePos::new(1, 1), Tile::with_texture(7)).unwrap();
    assert!(c.dirty);
    assert_eq!(c.get(TilePos::new(1, 1)).unwrap(), Tile::with_texture(7));
    assert_eq!(c.get(TilePos::new(0, 1)).unwrap(), Tile::default());
}

#[test]
fn chunk_rejects_out_of_bounds_local() {
    let mut c = Chunk::allocate(2, 2).unwrap();
    assert_eq!(c.get(TilePos::new(2, 0)).unwrap_err(), MapError::OutOfBounds);
    assert_eq!(
        c.set(TilePos::new(0, 2), Tile::with_texture(1)).unwrap_err(),
        MapError::OutOfBounds
    );
    assert!(!c.dirty);
}

#[test]
fn build_rejects_zero_dimensions() {
    let px = PixelDims { x: 32, y: 32 };
    assert_eq!(
        Layer::build(GridDims { x: 0, y: 1 }, GridDims { x: 5, y: 5 }, px, 0, 0).unwrap_err(),
        MapError::InvalidDimensions
    );
    assert_eq!(
        Layer::build(GridDims { x: 1, y: 1 }, GridDims { x: 5, y: 0 }, px, 0, 0).unwrap_err(),
        MapError::InvalidDimensions
    );
}

#[test]
fn single_set_tile_leaves_other_tiles_default() {
    // A 1x1 chunk grid of 5x5 tiles, flood-filled with the default tile, then
    // one explicit write at (2, 2).
    let mut layer = demo_layer(0, 0);
    layer.set_all(Tile::default());
    layer
        .set_tile(TilePos::new(2, 2), Tile::with_texture(1))
        .unwrap();
    for y in 0..5 {
        for x in 0..5 {
            let tile = layer.get_tile(TilePos::new(x, y)).unwrap();
            if (x, y) == (2, 2) {
                assert_eq!(tile.texture_index, 1);
            } else {
                assert_eq!(tile.texture_index, 0);
            }
        }
    }
}

#[test]
fn set_tile_round_trip_across_chunks() {
    let px = PixelDims { x: 32, y: 32 };
    let mut layer =
        Layer::build(GridDims { x: 3, y: 2 }, GridDims { x: 4, y: 4 }, px, 0, 0).unwrap();
    // One coordinate in each of three different chunks.
    for &(x, y, tex) in &[(0u32, 0u32, 5u32), (11, 7, 6), (5, 4, 9)] {
        layer.set_tile(TilePos::new(x, y), Tile::with_texture(tex)).unwrap();
    }
    assert_eq!(layer.get_tile(TilePos::new(0, 0)).unwrap().texture_index, 5);
    assert_eq!(layer.get_tile(TilePos::new(11, 7)).unwrap().texture_index, 6);
    assert_eq!(layer.get_tile(TilePos::new(5, 4)).unwrap().texture_index, 9);
    assert_eq!(layer.get_tile(TilePos::new(1, 0)).unwrap().texture_index, 0);
}

#[test]
fn out_of_bounds_rejected_and_nothing_mutated() {
    let mut layer = demo_layer(0, 0);
    layer.set_tile(TilePos::new(2, 2), Tile::with_texture(3)).unwrap();
    assert_eq!(
        layer
            .set_tile(TilePos::new(5, 0), Tile::with_texture(8))
            .unwrap_err(),
        MapError::OutOfBounds
    );
    assert_eq!(
        layer
            .set_tile(TilePos::new(0, 5), Tile::with_texture(8))
            .unwrap_err(),
        MapError::OutOfBounds
    );
    assert_eq!(
        layer.get_tile(TilePos::new(5, 0)).unwrap_err(),
        MapError::OutOfBounds
    );
    // The failed writes changed nothing.
    for y in 0..5 {
        for x in 0..5 {
            let expected = if (x, y) == (2, 2) { 3 } else { 0 };
            assert_eq!(
                layer.get_tile(TilePos::new(x, y)).unwrap().texture_index,
                expected
            );
        }
    }
}

#[test]
fn fill_twice_equals_fill_once() {
    let grass = Tile::with_texture(4);
    let mut once = demo_layer(0, 0);
    once.set_all(grass);
    let mut twice = demo_layer(0, 0);
    twice.set_all(grass);
    twice.set_all(grass);
    for y in 0..5 {
        for x in 0..5 {
            assert_eq!(
                once.get_tile(TilePos::new(x, y)).unwrap(),
                twice.get_tile(TilePos::new(x, y)).unwrap()
            );
        }
    }
}

#[test]
fn finalize_marks_built_and_cleans_chunks() {
    let mut layer = demo_layer(0, 0);
    layer.set_all(Tile::with_texture(2));
    assert!(!layer.built);
    assert!(layer.chunks.iter().all(|c| c.dirty));
    layer.finalize();
    assert!(layer.built);
    assert!(layer.chunks.iter().all(|c| !c.dirty));
    assert_eq!(layer.get_tile(TilePos::new(4, 4)).unwrap().texture_index, 2);
}

#[test]
fn registry_lookup_and_missing_layer() {
    let mut map = TileMap::new(0, 17);
    assert!(map.get_layer(0).is_none());
    let mut base = demo_layer(0, 0);
    base.set_all(Tile::default());
    map.add_layer(0, base);
    let mut overlay = demo_layer(1, 1);
    overlay
        .set_tile(TilePos::new(2, 2), Tile::with_texture(1))
        .unwrap();
    map.add_layer(1, overlay);
    assert_eq!(map.get_layer(0).unwrap().z_order, 0);
    assert_eq!(map.get_layer(1).unwrap().z_order, 1);
    assert!(map.get_layer(2).is_none());
    assert_eq!(
        map.get_tile(1, TilePos::new(2, 2)).unwrap().texture_index,
        1
    );
    assert_eq!(
        map.get_tile(9, TilePos::new(0, 0)).unwrap_err(),
        MapError::MissingLayer
    );
}

#[test]
fn duplicate_id_registration_replaces_and_returns_displaced_layer() {
    // Registering two layers under one id is an explicit overwrite: the later
    // layer takes the id and the earlier one is handed back.
    let mut map = TileMap::new(0, 17);
    assert!(map.add_layer(0, demo_layer(0, 0)).is_none());
    let displaced = map.add_layer(0, demo_layer(0, 7)).expect("first layer displaced");
    assert_eq!(displaced.z_order, 0);
    assert_eq!(map.get_layer(0).unwrap().z_order, 7);
}

#[test]
fn registry_set_tile_writes_through() {
    let mut map = TileMap::new(3, 4);
    map.add_layer(5, demo_layer(5, 5));
    map.set_tile(5, TilePos::new(1, 3), Tile::with_texture(6)).unwrap();
    assert_eq!(
        map.get_tile(5, TilePos::new(1, 3)).unwrap().texture_index,
        6
    );
    assert_eq!(
        map.set_tile(5, TilePos::new(9, 0), Tile::with_texture(6))
            .unwrap_err(),
        MapError::OutOfBounds
    );
    assert_eq!(
        map.set_tile(6, TilePos::new(0, 0), Tile::with_texture(6))
            .unwrap_err(),
        MapError::MissingLayer
    );
}
