//! The computational side of the GL backend: the per-window quad in pixel
//! coordinates, the fixed index pattern shared by every quad, and the
//! attribute list used when binding a server pixmap as a GL drawable.
//!
//! The caller converts quad coordinates to the float vertex format its
//! buffer upload expects; the coordinates themselves are exact integers
//! and are computed and specified here.
use vstd::prelude::*;

use crate::window::Window;

verus! {

/// Texture-from-pixmap attribute names and values, as the extension
/// defines them on the wire.
pub const GLX_TEXTURE_TARGET_EXT: i32 = 0x20D6;

pub const GLX_TEXTURE_2D_EXT: i32 = 0x20DC;

pub const GLX_TEXTURE_FORMAT_EXT: i32 = 0x20D5;

pub const GLX_TEXTURE_FORMAT_RGBA_EXT: i32 = 0x20DA;

/// The buffer a window pixmap is bound from: the front-left buffer.
pub const GLX_FRONT_LEFT_EXT: i32 = 0x20DE;

/// The right edge of a window's quad: the named pixmap carries the border
/// on both sides, so the border width counts twice.
pub open spec fn spec_quad_right(w: Window) -> int {
    w.x + w.width + 2 * w.border_width
}

/// The bottom edge of a window's quad, border counted twice as above.
pub open spec fn spec_quad_bottom(w: Window) -> int {
    w.y + w.height + 2 * w.border_width
}

/// The window's quad as 4 vertices of (x, y, u, v), in the order top-left,
/// top-right, bottom-left, bottom-right. Positions are pixel coordinates
/// in root space; u and v are the texture corners.
pub open spec fn spec_win_quad(w: Window) -> Seq<i32> {
    seq![
        w.x as i32,
        w.y as i32,
        0i32,
        0i32,
        spec_quad_right(w) as i32,
        w.y as i32,
        1i32,
        0i32,
        w.x as i32,
        spec_quad_bottom(w) as i32,
        0i32,
        1i32,
        spec_quad_right(w) as i32,
        spec_quad_bottom(w) as i32,
        1i32,
        1i32,
    ]
}

/// Computes the vertex data for a window's quad from its current
/// geometry. The caller uploads it (converted to its vertex float format)
/// into the window's vertex buffer.
pub fn formatted_win_data(w: &Window) -> (r: Vec<i32>)
    ensures
        r@ == spec_win_quad(*w),
{
    let x = w.x as i32;
    let y = w.y as i32;
    let right = x + w.width as i32 + 2 * (w.border_width as i32);
    let bottom = y + w.height as i32 + 2 * (w.border_width as i32);
    let mut r: Vec<i32> = Vec::new();
    r.push(x);
    r.push(y);
    r.push(0);
    r.push(0);
    r.push(right);
    r.push(y);
    r.push(1);
    r.push(0);
    r.push(x);
    r.push(bottom);
    r.push(0);
    r.push(1);
    r.push(right);
    r.push(bottom);
    r.push(1);
    r.push(1);
    proof {
        assert(r@ =~= spec_win_quad(*w));
    }
    r
}

/// Quad vertex computation is a pure function of geometry: two records
/// that agree on position, extents and border width get identical quads,
/// so recomputing a quad with unchanged geometry reproduces it exactly.
pub proof fn lemma_quad_deterministic(a: Window, b: Window)
    requires
        a.x == b.x,
        a.y == b.y,
        a.width == b.width,
        a.height == b.height,
        a.border_width == b.border_width,
    ensures
        spec_win_quad(a) == spec_win_quad(b),
{
    assert(spec_win_quad(a) =~= spec_win_quad(b));
}

/// The fixed element pattern describing a quad as two triangles.
pub fn quad_indices() -> (r: Vec<u32>)
    ensures
        r@ == seq![0u32, 1u32, 2u32, 1u32, 2u32, 3u32],
{
    let mut r: Vec<u32> = Vec::new();
    r.push(0);
    r.push(1);
    r.push(2);
    r.push(1);
    r.push(2);
    r.push(3);
    proof {
        assert(r@ =~= seq![0u32, 1u32, 2u32, 1u32, 2u32, 3u32]);
    }
    r
}

/// The attribute list for binding a window pixmap as a GL drawable:
/// a 2D texture target, RGBA format, terminated by `NONE`.
pub fn glx_pixmap_attribs() -> (r: Vec<i32>)
    ensures
        r@ == seq![
            GLX_TEXTURE_TARGET_EXT,
            GLX_TEXTURE_2D_EXT,
            GLX_TEXTURE_FORMAT_EXT,
            GLX_TEXTURE_FORMAT_RGBA_EXT,
            0i32,
        ],
{
    let mut r: Vec<i32> = Vec::new();
    r.push(GLX_TEXTURE_TARGET_EXT);
    r.push(GLX_TEXTURE_2D_EXT);
    r.push(GLX_TEXTURE_FORMAT_EXT);
    r.push(GLX_TEXTURE_FORMAT_RGBA_EXT);
    r.push(0);
    proof {
        assert(r@ =~= seq![
            GLX_TEXTURE_TARGET_EXT,
            GLX_TEXTURE_2D_EXT,
            GLX_TEXTURE_FORMAT_EXT,
            GLX_TEXTURE_FORMAT_RGBA_EXT,
            0i32,
        ]);
    }
    r
}

} // verus!
