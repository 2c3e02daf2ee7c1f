//! Coordinate systems and the camera transform.
//!
//! Cursor positions arrive in pixels with an origin in a window corner.  The
//! camera uses a centered convention, so a pixel position is first shifted by
//! half the window size and then mapped through the camera's transform (its
//! 2-D linear part plus a translation) to obtain a world position.
//!
//! All coordinates are integers.  `COORD_LIMIT` bounds every pixel
//! coordinate and every camera coefficient, which keeps the whole transform
//! free of overflow in `i64` arithmetic.

use vstd::prelude::*;

verus! {

/// Largest magnitude allowed for a pixel coordinate or a camera coefficient.
pub const COORD_LIMIT: i64 = 0x4000_0000;

/// A cursor position in pixels, relative to a window corner.
#[derive(Clone, Copy, PartialEq, Eq, Structural, Debug)]
pub struct PixelPos {
    pub x: i64,
    pub y: i64,
}

/// A position in world space.
#[derive(Clone, Copy, PartialEq, Eq, Structural, Debug)]
pub struct WorldPos {
    pub x: i64,
    pub y: i64,
}

/// The extent of a window in pixels.
#[derive(Clone, Copy, PartialEq, Eq, Structural, Debug)]
pub struct WindowSize {
    pub width: u32,
    pub height: u32,
}

/// The part of a camera's transform matrix that acts on points of the
/// camera plane: a 2x2 linear block and a translation.
#[derive(Clone, Copy, PartialEq, Eq, Structural, Debug)]
pub struct CameraTransform {
    pub m00: i64,
    pub m01: i64,
    pub m10: i64,
    pub m11: i64,
    pub tx: i64,
    pub ty: i64,
}

pub open spec fn coord_in_range(v: int) -> bool {
    -(COORD_LIMIT as int) <= v && v <= COORD_LIMIT as int
}

pub open spec fn pixel_in_range(p: PixelPos) -> bool {
    coord_in_range(p.x as int) && coord_in_range(p.y as int)
}

pub open spec fn size_in_range(s: WindowSize) -> bool {
    s.width as int <= 2 * (COORD_LIMIT as int) && s.height as int <= 2 * (COORD_LIMIT as int)
}

pub open spec fn camera_in_range(c: CameraTransform) -> bool {
    &&& coord_in_range(c.m00 as int)
    &&& coord_in_range(c.m01 as int)
    &&& coord_in_range(c.m10 as int)
    &&& coord_in_range(c.m11 as int)
    &&& coord_in_range(c.tx as int)
    &&& coord_in_range(c.ty as int)
}

/// The x coordinate of a pixel position re-expressed relative to the window
/// center.
pub open spec fn centered_x(p: PixelPos, s: WindowSize) -> int {
    p.x as int - (s.width as int) / 2
}

/// The y coordinate of a pixel position re-expressed relative to the window
/// center.
pub open spec fn centered_y(p: PixelPos, s: WindowSize) -> int {
    p.y as int - (s.height as int) / 2
}

/// The x coordinate of a centered point mapped through the camera transform.
pub open spec fn world_x(c: CameraTransform, cx: int, cy: int) -> int {
    c.m00 as int * cx + c.m01 as int * cy + c.tx as int
}

/// The y coordinate of a centered point mapped through the camera transform.
pub open spec fn world_y(c: CameraTransform, cx: int, cy: int) -> int {
    c.m10 as int * cx + c.m11 as int * cy + c.ty as int
}

/// The full pixel-to-world conversion, x coordinate.
pub open spec fn pixel_to_world_x(c: CameraTransform, s: WindowSize, p: PixelPos) -> int {
    world_x(c, centered_x(p, s), centered_y(p, s))
}

/// The full pixel-to-world conversion, y coordinate.
pub open spec fn pixel_to_world_y(c: CameraTransform, s: WindowSize, p: PixelPos) -> int {
    world_y(c, centered_x(p, s), centered_y(p, s))
}

proof fn lemma_mul_bound(a: int, b: int, ba: int, bb: int)
    by (nonlinear_arith)
    requires
        -ba <= a <= ba,
        -bb <= b <= bb,
    ensures
        -(ba * bb) <= a * b <= ba * bb,
{
}

/// For in-range cameras, windows and pixel positions, the pixel-to-world
/// conversion stays within the `i64` range.
pub proof fn lemma_pixel_to_world_bounds(c: CameraTransform, s: WindowSize, p: PixelPos)
    requires
        camera_in_range(c),
        size_in_range(s),
        pixel_in_range(p),
    ensures
        i64::MIN as int <= pixel_to_world_x(c, s, p) <= i64::MAX as int,
        i64::MIN as int <= pixel_to_world_y(c, s, p) <= i64::MAX as int,
{
    let l: int = COORD_LIMIT as int;
    let cx = centered_x(p, s);
    let cy = centered_y(p, s);
    lemma_mul_bound(c.m00 as int, cx, l, 2 * l);
    lemma_mul_bound(c.m01 as int, cy, l, 2 * l);
    lemma_mul_bound(c.m10 as int, cx, l, 2 * l);
    lemma_mul_bound(c.m11 as int, cy, l, 2 * l);
}

/// Converts a cursor position in pixels to a world position: shift by half
/// the window size to center it, then apply the camera transform.
pub fn pixel_to_world(cam: &CameraTransform, size: &WindowSize, pos: &PixelPos) -> (w: WorldPos)
    requires
        camera_in_range(*cam),
        size_in_range(*size),
        pixel_in_range(*pos),
    ensures
        w.x as int == pixel_to_world_x(*cam, *size, *pos),
        w.y as int == pixel_to_world_y(*cam, *size, *pos),
{
    let half_w: i64 = (size.width / 2) as i64;
    let half_h: i64 = (size.height / 2) as i64;
    let cx: i64 = pos.x - half_w;
    let cy: i64 = pos.y - half_h;
    proof {
        let l: int = COORD_LIMIT as int;
        lemma_mul_bound(cam.m00 as int, cx as int, l, 2 * l);
        lemma_mul_bound(cam.m01 as int, cy as int, l, 2 * l);
        lemma_mul_bound(cam.m10 as int, cx as int, l, 2 * l);
        lemma_mul_bound(cam.m11 as int, cy as int, l, 2 * l);
    }
    let wx: i64 = cam.m00 * cx + cam.m01 * cy + cam.tx;
    let wy: i64 = cam.m10 * cx + cam.m11 * cy + cam.ty;
    WorldPos { x: wx, y: wy }
}

} // verus!
