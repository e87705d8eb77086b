//! The window record: the compositor's local mirror of one top-level
//! window, together with the GPU-side handles that belong to it.
//!
//! Handles (server pixmap, damage tracker, GL pixmap binding, texture,
//! vertex buffer) are plain numeric ids here; the value `0` stands for
//! "not allocated", matching both the X protocol's `NONE` and GL's
//! null object name.
use vstd::prelude::*;

verus! {

/// Geometry and attributes of a window, as the caller read them from the
/// server when the window was first seen.
#[derive(Clone, Copy, PartialEq, Eq, Structural, Debug)]
pub struct WindowInfo {
    pub id: u32,
    pub x: i16,
    pub y: i16,
    pub width: u16,
    pub height: u16,
    pub border_width: u16,
    pub mapped: bool,
    pub override_redirect: bool,
    pub alpha: bool,
}

/// The geometry payload of a configure event.
#[derive(Clone, Copy, PartialEq, Eq, Structural, Debug)]
pub struct ConfigureInfo {
    pub x: i16,
    pub y: i16,
    pub width: u16,
    pub height: u16,
    pub border_width: u16,
    pub override_redirect: bool,
}

/// The GPU-side triple owned by one window: GL pixmap binding, texture,
/// and the vertex buffer holding the window's quad.
#[derive(Clone, Copy, PartialEq, Eq, Structural, Debug)]
pub struct RenderContext {
    pub glxpixmap: u64,
    pub texture: u32,
    pub vbo: u32,
}

/// One record per tracked top-level window.
#[derive(Clone, Copy, PartialEq, Eq, Structural, Debug)]
pub struct Window {
    pub id: u32,
    pub x: i16,
    pub y: i16,
    pub width: u16,
    pub height: u16,
    pub border_width: u16,
    pub mapped: bool,
    pub override_redirect: bool,
    pub alpha: bool,
    /// Named off-screen backing pixmap; 0 until first named.
    pub pixmap: u32,
    /// Server-side damage tracker; 0 until first allocated.
    pub damage: u32,
    pub context: RenderContext,
}

impl Window {
    /// The record a fresh query result turns into: geometry and attributes
    /// copied over, no resources allocated yet.
    pub open spec fn spec_from_info(info: WindowInfo) -> Window {
        Window {
            id: info.id,
            x: info.x,
            y: info.y,
            width: info.width,
            height: info.height,
            border_width: info.border_width,
            mapped: info.mapped,
            override_redirect: info.override_redirect,
            alpha: info.alpha,
            pixmap: 0,
            damage: 0,
            context: RenderContext { glxpixmap: 0, texture: 0, vbo: 0 },
        }
    }

    /// The record after a configure event: geometry, border width and
    /// override-redirect overwritten from the event payload.
    pub open spec fn spec_with_configure(self, cfg: ConfigureInfo) -> Window {
        Window {
            x: cfg.x,
            y: cfg.y,
            width: cfg.width,
            height: cfg.height,
            border_width: cfg.border_width,
            override_redirect: cfg.override_redirect,
            ..self
        }
    }

    /// The record after its backing store was re-named: fresh pixmap,
    /// damage tracker, GL pixmap binding and texture, all replaced together.
    pub open spec fn spec_with_fresh_pixmap(
        self,
        pixmap: u32,
        damage: u32,
        glxpixmap: u64,
        texture: u32,
    ) -> Window {
        Window {
            pixmap,
            damage,
            context: RenderContext { glxpixmap, texture, vbo: self.context.vbo },
            ..self
        }
    }

    /// The record after a vertex buffer was (re)allocated for it.
    pub open spec fn spec_with_vbo(self, vbo: u32) -> Window {
        Window { context: RenderContext { vbo, ..self.context }, ..self }
    }

    /// All handles a mapped window must have valid: backing pixmap,
    /// damage tracker, GL pixmap binding, texture.
    pub open spec fn armed(self) -> bool {
        &&& self.pixmap != 0
        &&& self.damage != 0
        &&& self.context.glxpixmap != 0
        &&& self.context.texture != 0
    }

    /// Whether the geometry carried by a configure event differs from the
    /// record in a way that invalidates the backing pixmap.
    pub open spec fn spec_pixmap_stale(self, cfg: ConfigureInfo) -> bool {
        ||| self.width != cfg.width
        ||| self.height != cfg.height
        ||| self.override_redirect != cfg.override_redirect
        ||| self.border_width != cfg.border_width
    }

    /// Builds a record from queried geometry and attributes. No server or
    /// GPU resource exists for it yet.
    pub fn new(info: &WindowInfo) -> (w: Window)
        ensures
            w == Window::spec_from_info(*info),
    {
        Window {
            id: info.id,
            x: info.x,
            y: info.y,
            width: info.width,
            height: info.height,
            border_width: info.border_width,
            mapped: info.mapped,
            override_redirect: info.override_redirect,
            alpha: info.alpha,
            pixmap: 0,
            damage: 0,
            context: RenderContext { glxpixmap: 0, texture: 0, vbo: 0 },
        }
    }

    /// Overwrites the geometry fields from a fresh server geometry query.
    pub fn update_geometry(&mut self, x: i16, y: i16, width: u16, height: u16, border_width: u16)
        ensures
            *final(self) == (Window { x, y, width, height, border_width, ..*old(self) }),
    {
        self.x = x;
        self.y = y;
        self.width = width;
        self.height = height;
        self.border_width = border_width;
    }

    /// Overwrites geometry, border width and override-redirect from a
    /// configure event, avoiding a round-trip geometry query.
    pub fn update_using_event(&mut self, cfg: &ConfigureInfo)
        ensures
            *final(self) == old(self).spec_with_configure(*cfg),
    {
        self.x = cfg.x;
        self.y = cfg.y;
        self.width = cfg.width;
        self.height = cfg.height;
        self.border_width = cfg.border_width;
        self.override_redirect = cfg.override_redirect;
    }

    /// Installs the freshly allocated backing handles after the caller
    /// re-named the window pixmap, and hands back the handles they replace
    /// so the caller can release exactly those.
    pub fn update_pixmap(
        &mut self,
        pixmap: u32,
        damage: u32,
        glxpixmap: u64,
        texture: u32,
    ) -> (prev: (u32, u64, u32))
        ensures
            *final(self) == old(self).spec_with_fresh_pixmap(pixmap, damage, glxpixmap, texture),
            prev == (old(self).damage, old(self).context.glxpixmap, old(self).context.texture),
    {
        let prev = (self.damage, self.context.glxpixmap, self.context.texture);
        self.pixmap = pixmap;
        self.damage = damage;
        self.context.glxpixmap = glxpixmap;
        self.context.texture = texture;
        prev
    }

    /// Installs a freshly created vertex buffer and hands back the one it
    /// replaces (0 when none existed).
    pub fn set_vbo(&mut self, vbo: u32) -> (prev: u32)
        ensures
            *final(self) == old(self).spec_with_vbo(vbo),
            prev == old(self).context.vbo,
    {
        let prev = self.context.vbo;
        self.context.vbo = vbo;
        prev
    }
}

/// The window list built from the root's children. The caller queries the
/// children top to bottom; a `None` stands for a child whose info query
/// failed and which is skipped. The list comes out bottom to top, the order
/// the compositing pass draws in.
pub open spec fn spec_fetch_windows(infos: Seq<Option<WindowInfo>>) -> Seq<Window>
    decreases infos.len(),
{
    if infos.len() == 0 {
        Seq::empty()
    } else {
        (match infos[0] {
            Some(info) => spec_fetch_windows(infos.drop_first()).push(
                Window::spec_from_info(info),
            ),
            None => spec_fetch_windows(infos.drop_first()),
        })
    }
}

impl Window {
    /// Builds the initial window list from the root's children, queried top
    /// to bottom, placing records in bottom-to-top stacking order. Children
    /// whose query failed (`None`) are skipped.
    pub fn fetch_windows(infos: &Vec<Option<WindowInfo>>) -> (r: Vec<Window>)
        ensures
            r@ == spec_fetch_windows(infos@),
    {
        let mut r: Vec<Window> = Vec::new();
        let mut i: usize = infos.len();
        while i > 0
            invariant
                i <= infos.len(),
                r@ == spec_fetch_windows(infos@.subrange(i as int, infos@.len() as int)),
            decreases i,
        {
            i = i - 1;
            let suffix = Ghost(infos@.subrange(i as int, infos@.len() as int));
            assert(suffix@.drop_first() =~= infos@.subrange(i as int + 1, infos@.len() as int));
            match &infos[i] {
                Some(info) => {
                    r.push(Window::new(info));
                }
                None => {}
            }
        }
        assert(infos@.subrange(0, infos@.len() as int) =~= infos@);
        r
    }
}

/// One entry of the server's picture-format table, reduced to what the
/// alpha decision reads: which colormap it belongs to, whether it is a
/// direct format, and its alpha mask.
#[derive(Clone, Copy, PartialEq, Eq, Structural, Debug)]
pub struct PictFormat {
    pub colormap: u32,
    pub direct: bool,
    pub alpha_mask: u32,
}

/// Whether the first format matching the colormap is a direct format
/// with a nonzero alpha mask; false when none matches.
pub open spec fn spec_has_alpha(formats: Seq<PictFormat>, colormap: u32) -> bool
    decreases formats.len(),
{
    if formats.len() == 0 {
        false
    } else if formats[0].colormap == colormap {
        formats[0].direct && formats[0].alpha_mask != 0
    } else {
        spec_has_alpha(formats.drop_first(), colormap)
    }
}

/// Decides whether a window's visual has an alpha channel, by matching
/// its colormap against the server's picture formats: the first matching
/// format decides, by being direct and carrying a nonzero alpha mask.
pub fn has_alpha(formats: &Vec<PictFormat>, colormap: u32) -> (r: bool)
    ensures
        r == spec_has_alpha(formats@, colormap),
{
    let n = formats.len();
    proof {
        assert(formats@.subrange(0, n as int) =~= formats@);
    }
    for i in 0..n
        invariant
            n == formats@.len(),
            spec_has_alpha(formats@, colormap) == spec_has_alpha(
                formats@.subrange(i as int, n as int),
                colormap,
            ),
    {
        proof {
            assert(formats@.subrange(i as int, n as int).drop_first() =~= formats@.subrange(
                i as int + 1,
                n as int,
            ));
        }
        let f = formats[i];
        if f.colormap == colormap {
            return f.direct && f.alpha_mask != 0;
        }
    }
    false
}

} // verus!
