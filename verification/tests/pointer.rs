use tile_access::tile::TilePos;
use tile_access::transform::CameraTransform;
use tile_access::transform::KeyState;
use tile_access::transform::PointerPos;
use tile_access::transform::TileCoord;
use tile_access::transform::WindowSize;
use tile_access::transform::cursor_tile;
use tile_access::transform::movement;
use tile_access::transform::pointer_to_tile;

fn window() -> WindowSize {
    WindowSize { width: 512, height: 512 }
}

fn no_keys() -> KeyState {
    KeyState { left: false, right: false, up: false, down: false, zoom_in: false, zoom_out: false }
}

#[test]
fn window_center_maps_to_tile_origin() {
    // Window 512x512, tile size 32, camera at the origin with the identity
    // transform: the pointer at the window center lands on tile (0, 0).
    let r = pointer_to_tile(PointerPos { x: 256, y: 256 }, window(), CameraTransform::identity(), 32);
    assert_eq!(r, TileCoord { x: 0, y: 0 });
}

#[test]
fn one_tile_right_of_center() {
    // Pointer at (288, 256): centered (32, 0), world (32, 0), tile (1, 0).
    let r = pointer_to_tile(PointerPos { x: 288, y: 256 }, window(), CameraTransform::identity(), 32);
    assert_eq!(r, TileCoord { x: 1, y: 0 });
}

#[test]
fn truncation_toward_zero_left_of_center() {
    let cam = CameraTransform::identity();
    // Centered x is -31: a true floor would give tile -1, truncation gives 0.
    let r = pointer_to_tile(PointerPos { x: 225, y: 256 }, window(), cam, 32);
    assert_eq!(r, TileCoord { x: 0, y: 0 });
    // Centered x is -32: exactly one tile left of the origin.
    let r = pointer_to_tile(PointerPos { x: 224, y: 256 }, window(), cam, 32);
    assert_eq!(r, TileCoord { x: -1, y: 0 });
}

#[test]
fn camera_translation_shifts_the_world_position() {
    let cam = CameraTransform { translation_x: 64, translation_y: -32, scale_tenths: 10 };
    let r = pointer_to_tile(PointerPos { x: 256, y: 256 }, window(), cam, 32);
    assert_eq!(r, TileCoord { x: 2, y: -1 });
}

#[test]
fn camera_scale_stretches_centered_coordinates() {
    // Scale 2.0 (20 tenths): centered (32, 0) becomes world (64, 0), tile 2.
    let cam = CameraTransform { translation_x: 0, translation_y: 0, scale_tenths: 20 };
    let r = pointer_to_tile(PointerPos { x: 288, y: 256 }, window(), cam, 32);
    assert_eq!(r, TileCoord { x: 2, y: 0 });
}

#[test]
fn repeated_queries_agree() {
    let cam = CameraTransform { translation_x: 7, translation_y: -3, scale_tenths: 13 };
    let p = PointerPos { x: 300, y: 11 };
    let first = pointer_to_tile(p, window(), cam, 32);
    let second = pointer_to_tile(p, window(), cam, 32);
    assert_eq!(first, second);
}

#[test]
fn absent_pointer_produces_no_tile() {
    let cam = CameraTransform::identity();
    assert!(cursor_tile(None, window(), cam, 32).is_none());
    assert_eq!(
        cursor_tile(Some(PointerPos { x: 256, y: 256 }), window(), cam, 32),
        Some(TileCoord { x: 0, y: 0 })
    );
}

#[test]
fn tile_coord_converts_to_layer_position_only_when_non_negative() {
    assert_eq!(TileCoord { x: 3, y: 4 }.to_tile_pos(), Some(TilePos { x: 3, y: 4 }));
    assert_eq!(TileCoord { x: -1, y: 4 }.to_tile_pos(), None);
    assert_eq!(TileCoord { x: 0, y: 0x1_0000_0000 }.to_tile_pos(), None);
}

#[test]
fn movement_translates_along_held_directions() {
    let cam = CameraTransform::identity();
    let mut keys = no_keys();
    keys.right = true;
    keys.up = true;
    let moved = movement(cam, keys, 5);
    assert_eq!(moved.translation_x, 5);
    assert_eq!(moved.translation_y, 5);
    assert_eq!(moved.scale_tenths, 10);
}

#[test]
fn movement_opposing_keys_cancel() {
    let cam = CameraTransform { translation_x: 9, translation_y: -2, scale_tenths: 10 };
    let mut keys = no_keys();
    keys.left = true;
    keys.right = true;
    keys.down = true;
    let moved = movement(cam, keys, 100);
    assert_eq!(moved.translation_x, 9);
    assert_eq!(moved.translation_y, -102);
}

#[test]
fn movement_translation_saturates() {
    let cam = CameraTransform { translation_x: i32::MAX - 1, translation_y: 0, scale_tenths: 10 };
    let mut keys = no_keys();
    keys.right = true;
    let moved = movement(cam, keys, 1000);
    assert_eq!(moved.translation_x, i32::MAX);
}

#[test]
fn zoom_never_drops_below_scale_one() {
    let cam = CameraTransform::identity();
    let mut keys = no_keys();
    keys.zoom_out = true;
    let moved = movement(cam, keys, 0);
    assert_eq!(moved.scale_tenths, 10);
}

#[test]
fn zoom_in_adds_a_tenth_and_zoom_out_wins_over_it() {
    let cam = CameraTransform { translation_x: 0, translation_y: 0, scale_tenths: 14 };
    let mut keys = no_keys();
    keys.zoom_in = true;
    assert_eq!(movement(cam, keys, 0).scale_tenths, 15);
    keys.zoom_out = true;
    // Both zoom keys held: the zoom-out write lands last, as both read the
    // scale captured at the start of the frame.
    assert_eq!(movement(cam, keys, 0).scale_tenths, 13);
}
