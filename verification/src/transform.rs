//! The coordinate transform: pointer position in window space to tile
//! coordinate through camera space, and the per-frame camera movement step.
//!
//! The pipeline follows one canonical convention: center the pointer on the
//! window, apply the camera transform (uniform scale, then translation), and
//! divide by the tile size last, truncating toward zero. The camera's uniform
//! scale is carried in tenths, so every step is exact integer arithmetic:
//! ten times the world coordinate is `scale_tenths * centered + 10 *
//! translation`, and the tile coordinate divides that by `10 * tile_size`.

use vstd::arithmetic::div_mod::lemma_div_nonincreasing;
use vstd::arithmetic::div_mod::lemma_div_pos_is_pos;
use vstd::prelude::*;

use crate::tile::TilePos;

verus! {

/// Marker for the one active camera a scene assumes: the pointer-to-tile
/// mapping is defined with respect to exactly one camera, and callers resolve
/// which camera that is before querying.
#[derive(Clone, Copy, PartialEq, Eq, Structural, Debug)]
pub struct MainCamera;

/// A raw pointer position in window pixels, origin at a window corner;
/// present only while the pointer is inside the window.
#[derive(Clone, Copy, PartialEq, Eq, Structural, Debug)]
pub struct PointerPos {
    pub x: u32,
    pub y: u32,
}

/// Window dimensions in pixels.
#[derive(Clone, Copy, PartialEq, Eq, Structural, Debug)]
pub struct WindowSize {
    pub width: u32,
    pub height: u32,
}

/// The 2D camera state the transform reads: a translation in world pixels and
/// a uniform scale held in tenths (10 is scale one, the identity).
#[derive(Clone, Copy, PartialEq, Eq, Structural, Debug)]
pub struct CameraTransform {
    pub translation_x: i32,
    pub translation_y: i32,
    pub scale_tenths: u16,
}

impl CameraTransform {
    /// The camera at the origin with the identity transform.
    pub fn identity() -> (c: CameraTransform)
        ensures
            c == (CameraTransform { translation_x: 0, translation_y: 0, scale_tenths: 10 }),
    {
        CameraTransform { translation_x: 0, translation_y: 0, scale_tenths: 10 }
    }
}

/// A camera-space tile coordinate: the output of the transform. Signed,
/// because a pointer left of or below the camera origin lands on a negative
/// tile coordinate.
#[derive(Clone, Copy, PartialEq, Eq, Structural, Debug)]
pub struct TileCoord {
    pub x: i64,
    pub y: i64,
}

impl TileCoord {
    /// This coordinate as a non-negative layer coordinate, when it is one.
    pub fn to_tile_pos(&self) -> (r: Option<TilePos>)
        ensures
            0 <= self.x <= u32::MAX && 0 <= self.y <= u32::MAX ==> r == Some(
                TilePos { x: self.x as u32, y: self.y as u32 },
            ),
            !(0 <= self.x <= u32::MAX && 0 <= self.y <= u32::MAX) ==> r is None,
    {
        if 0 <= self.x && self.x <= u32::MAX as i64 && 0 <= self.y && self.y <= u32::MAX as i64 {
            Some(TilePos { x: self.x as u32, y: self.y as u32 })
        } else {
            None
        }
    }
}

/// Which keys the input provider reports held this frame.
#[derive(Clone, Copy, PartialEq, Eq, Structural, Debug)]
pub struct KeyState {
    pub left: bool,
    pub right: bool,
    pub up: bool,
    pub down: bool,
    pub zoom_in: bool,
    pub zoom_out: bool,
}

/// Division truncating toward zero — what a direct cast of the quotient to an
/// integer performs — as opposed to the flooring `/` of specifications.
pub open spec fn trunc_div(a: int, b: int) -> int {
    if a >= 0 {
        a / b
    } else {
        -((-a) / b)
    }
}

/// The pointer coordinate re-centered on the window: window-space origin sits
/// at a corner, camera space is centered on the camera.
pub open spec fn centered_coord(p: int, w: int) -> int {
    p - w / 2
}

/// Ten times the world coordinate of a centered pointer coordinate: uniform
/// scale in tenths, then translation.
pub open spec fn world_times_ten(p: int, w: int, scale_tenths: int, translation: int) -> int {
    scale_tenths * centered_coord(p, w) + 10 * translation
}

/// One axis of the pointer-to-tile transform: world coordinate divided by the
/// tile size, truncated toward zero.
pub open spec fn tile_axis_spec(
    p: int,
    w: int,
    scale_tenths: int,
    translation: int,
    tile_size: int,
) -> int {
    trunc_div(world_times_ten(p, w, scale_tenths, translation), 10 * tile_size)
}

/// Truncating signed division, `b` positive.
fn trunc_div_i64(a: i64, b: i64) -> (q: i64)
    requires
        1 <= b,
        i64::MIN < a,
    ensures
        q == trunc_div(a as int, b as int),
{
    if a >= 0 {
        let m: u64 = a as u64;
        let d: u64 = b as u64;
        proof {
            lemma_div_nonincreasing(m as int, d as int);
            lemma_div_pos_is_pos(m as int, d as int);
        }
        (m / d) as i64
    } else {
        let m: u64 = (-a) as u64;
        let d: u64 = b as u64;
        proof {
            lemma_div_nonincreasing(m as int, d as int);
            lemma_div_pos_is_pos(m as int, d as int);
        }
        -((m / d) as i64)
    }
}

/// One axis of the transform on machine integers.
fn tile_axis(p: u32, w: u32, scale_tenths: u16, translation: i32, tile_size: u32) -> (r: i64)
    requires
        1 <= tile_size,
    ensures
        r == tile_axis_spec(
            p as int,
            w as int,
            scale_tenths as int,
            translation as int,
            tile_size as int,
        ),
{
    let centered: i64 = (p as i64) - ((w / 2) as i64);
    proof {
        assert((scale_tenths as int) * (centered as int) <= 65535 * 0x100000000
            && (scale_tenths as int) * (centered as int) >= -(65535 * 0x100000000))
            by (nonlinear_arith)
            requires
                0 <= scale_tenths <= 65535,
                -0x80000000 <= centered <= 0x100000000,
        ;
    }
    let scaled: i64 = (scale_tenths as i64) * centered;
    let world10: i64 = scaled + 10 * (translation as i64);
    let den: i64 = 10 * (tile_size as i64);
    trunc_div_i64(world10, den)
}

/// Converts a pointer position in window space into a camera-space tile
/// coordinate: center on the window, apply the camera transform, divide by
/// the tile size truncating toward zero.
pub fn pointer_to_tile(
    pointer: PointerPos,
    window: WindowSize,
    camera: CameraTransform,
    tile_size: u32,
) -> (r: TileCoord)
    requires
        1 <= tile_size,
    ensures
        r.x == tile_axis_spec(
            pointer.x as int,
            window.width as int,
            camera.scale_tenths as int,
            camera.translation_x as int,
            tile_size as int,
        ),
        r.y == tile_axis_spec(
            pointer.y as int,
            window.height as int,
            camera.scale_tenths as int,
            camera.translation_y as int,
            tile_size as int,
        ),
{
    TileCoord {
        x: tile_axis(pointer.x, window.width, camera.scale_tenths, camera.translation_x, tile_size),
        y: tile_axis(
            pointer.y,
            window.height,
            camera.scale_tenths,
            camera.translation_y,
            tile_size,
        ),
    }
}

/// The per-frame pointer query: a frame without a pointer inside the window
/// produces no tile coordinate — not an error, simply nothing to do.
pub fn cursor_tile(
    pointer: Option<PointerPos>,
    window: WindowSize,
    camera: CameraTransform,
    tile_size: u32,
) -> (r: Option<TileCoord>)
    requires
        1 <= tile_size,
    ensures
        pointer is None ==> r is None,
        pointer matches Some(p) ==> r matches Some(t) && t.x == tile_axis_spec(
            p.x as int,
            window.width as int,
            camera.scale_tenths as int,
            camera.translation_x as int,
            tile_size as int,
        ) && t.y == tile_axis_spec(
            p.y as int,
            window.height as int,
            camera.scale_tenths as int,
            camera.translation_y as int,
            tile_size as int,
        ),
{
    match pointer {
        Some(p) => Some(pointer_to_tile(p, window, camera, tile_size)),
        None => None,
    }
}

/// Transform determinism: pointer position, window size, camera state and
/// tile size fully determine the tile coordinate — any two results that meet
/// the transform's contract on the same inputs are equal.
pub proof fn lemma_transform_deterministic(
    pointer: PointerPos,
    window: WindowSize,
    camera: CameraTransform,
    tile_size: int,
    r1: TileCoord,
    r2: TileCoord,
)
    requires
        r1.x == tile_axis_spec(
            pointer.x as int,
            window.width as int,
            camera.scale_tenths as int,
            camera.translation_x as int,
            tile_size,
        ),
        r1.y == tile_axis_spec(
            pointer.y as int,
            window.height as int,
            camera.scale_tenths as int,
            camera.translation_y as int,
            tile_size,
        ),
        r2.x == tile_axis_spec(
            pointer.x as int,
            window.width as int,
            camera.scale_tenths as int,
            camera.translation_x as int,
            tile_size,
        ),
        r2.y == tile_axis_spec(
            pointer.y as int,
            window.height as int,
            camera.scale_tenths as int,
            camera.translation_y as int,
            tile_size,
        ),
    ensures
        r1 == r2,
{
}

/// The direction a pair of opposing keys asks for: 1, -1, or 0.
pub open spec fn axis_direction(neg: bool, pos: bool) -> int {
    (if pos {
        1int
    } else {
        0int
    }) - (if neg {
        1int
    } else {
        0int
    })
}

/// A value clamped to the i32 range.
pub open spec fn clamp_i32(v: int) -> int {
    if v < -0x80000000 {
        -0x80000000
    } else if v > 0x7fffffff {
        0x7fffffff
    } else {
        v
    }
}

/// The camera scale after one movement step: a zoom-out key takes a tenth
/// off, otherwise a zoom-in key adds one; the result never drops below scale
/// one (10 tenths) and saturates at the carrier's upper bound.
pub open spec fn stepped_scale(scale_tenths: int, zoom_in: bool, zoom_out: bool) -> int {
    let adjusted = if zoom_out {
        scale_tenths - 1
    } else if zoom_in {
        scale_tenths + 1
    } else {
        scale_tenths
    };
    if adjusted < 10 {
        10
    } else if adjusted > 0xffff {
        0xffff
    } else {
        adjusted
    }
}

/// One per-frame camera movement step: held direction keys move the camera
/// `step` world pixels along each axis (saturating at the carrier's range),
/// and the zoom keys adjust the uniform scale by a tenth, with a zoom-out
/// overriding a simultaneous zoom-in and the scale clamped to at least one.
pub fn movement(camera: CameraTransform, keys: KeyState, step: u32) -> (c: CameraTransform)
    ensures
        c.translation_x == clamp_i32(
            camera.translation_x + axis_direction(keys.left, keys.right) * step,
        ),
        c.translation_y == clamp_i32(
            camera.translation_y + axis_direction(keys.down, keys.up) * step,
        ),
        c.scale_tenths == stepped_scale(camera.scale_tenths as int, keys.zoom_in, keys.zoom_out),
{
    let tx = moved_axis(camera.translation_x, keys.left, keys.right, step);
    let ty = moved_axis(camera.translation_y, keys.down, keys.up, step);
    let s: i32 = camera.scale_tenths as i32;
    let s2: i32 = if keys.zoom_out {
        s - 1
    } else if keys.zoom_in {
        s + 1
    } else {
        s
    };
    let s3: u16 = if s2 < 10 {
        10
    } else if s2 > 0xffff {
        0xffff
    } else {
        s2 as u16
    };
    CameraTransform { translation_x: tx, translation_y: ty, scale_tenths: s3 }
}

/// One translation axis of the movement step, saturating at the i32 range.
fn moved_axis(translation: i32, neg: bool, pos: bool, step: u32) -> (t: i32)
    ensures
        t == clamp_i32(translation + axis_direction(neg, pos) * step),
{
    let delta: i64 = if pos && !neg {
        step as i64
    } else if neg && !pos {
        -(step as i64)
    } else {
        0
    };
    proof {
        if pos && !neg {
            assert(axis_direction(neg, pos) == 1);
        } else if neg && !pos {
            assert(axis_direction(neg, pos) == -1);
        } else {
            assert(axis_direction(neg, pos) == 0);
        }
        assert(delta as int == axis_direction(neg, pos) * (step as int));
    }
    let moved: i64 = (translation as i64) + delta;
    if moved < i32::MIN as i64 {
        i32::MIN
    } else if moved > i32::MAX as i64 {
        i32::MAX
    } else {
        moved as i32
    }
}

} // verus!
