//! Global compositor state: the root window record, the window list, and
//! the frame-pacing bookkeeping.
//!
//! The server connection, screen indices and overlay drawable stay with
//! the caller; this model only holds what the event handlers decide over.
use vstd::prelude::*;

use crate::stack::unique_ids;
use crate::window::{Window, WindowInfo};

verus! {

/// The compositor's model of one screen: the root record (drawn as the
/// background), the top-level window list in bottom-to-top stacking order,
/// and the timing state of the damage rate limiter.
pub struct State {
    /// The root window's record; its pixmap is the background pixmap.
    pub root: Window,
    /// One record per tracked top-level child of the root, bottom to top.
    pub windows: Vec<Window>,
    /// Time, in milliseconds, when the last damage-driven frame was emitted.
    pub last_render: u64,
    /// Minimum milliseconds between two damage-driven frames.
    pub refresh_interval: u64,
}

impl State {
    /// Well-formed state: ids in the window list are pairwise distinct.
    pub open spec fn wf(self) -> bool {
        unique_ids(self.windows@)
    }

    /// A fresh state around a root record: no tracked windows yet, no
    /// frame emitted yet.
    pub fn init(root_info: &WindowInfo, refresh_interval: u64) -> (s: State)
        ensures
            s.root == Window::spec_from_info(*root_info),
            s.windows@ =~= Seq::<Window>::empty(),
            s.last_render == 0,
            s.refresh_interval == refresh_interval,
            s.wf(),
    {
        State {
            root: Window::new(root_info),
            windows: Vec::new(),
            last_render: 0,
            refresh_interval,
        }
    }

    /// Installs the root background pixmap the caller located through the
    /// root pixmap properties, or the `NONE` handle when none was found.
    pub fn update_root_pixmap(&mut self, pixmap: Option<u32>)
        ensures
            final(self).root.pixmap == (match pixmap {
                Some(p) => p,
                None => 0u32,
            }),
            final(self).root == (Window { pixmap: final(self).root.pixmap, ..old(self).root }),
            final(self).windows == old(self).windows,
            final(self).last_render == old(self).last_render,
            final(self).refresh_interval == old(self).refresh_interval,
    {
        match pixmap {
            Some(p) => self.root.pixmap = p,
            None => self.root.pixmap = 0,
        }
    }
}

/// One reply to a root-pixmap property query; `None` where the request
/// itself failed.
#[derive(Clone, Copy, PartialEq, Eq, Structural, Debug)]
pub struct PropertyReply {
    /// The type atom of the property's value.
    pub type_atom: u32,
    /// The property's format in bits per item.
    pub format: u8,
    /// How many items the value holds.
    pub length: u32,
    /// The first 32-bit item of the value.
    pub value: u32,
}

/// Whether a reply carries a pixmap id: type `PIXMAP`, format 32, exactly
/// one item.
pub open spec fn spec_is_pixmap_reply(r: PropertyReply, pixmap_atom: u32) -> bool {
    r.type_atom == pixmap_atom && r.format == 32 && r.length == 1
}

/// The root pixmap named by the first matching reply, scanning the
/// well-known root pixmap properties in order.
pub open spec fn spec_root_pixmap(replies: Seq<Option<PropertyReply>>, pixmap_atom: u32) -> Option<
    u32,
>
    decreases replies.len(),
{
    if replies.len() == 0 {
        None
    } else {
        match replies[0] {
            Some(r) => if spec_is_pixmap_reply(r, pixmap_atom) {
                Some(r.value)
            } else {
                spec_root_pixmap(replies.drop_first(), pixmap_atom)
            },
            None => spec_root_pixmap(replies.drop_first(), pixmap_atom),
        }
    }
}

/// Picks the root background pixmap out of the property replies for the
/// well-known root pixmap atoms, queried in their fixed order: the first
/// reply with type `PIXMAP`, format 32 and a single item wins.
pub fn get_root_pixmap(replies: &Vec<Option<PropertyReply>>, pixmap_atom: u32) -> (r: Option<u32>)
    ensures
        r == spec_root_pixmap(replies@, pixmap_atom),
{
    let n = replies.len();
    proof {
        assert(replies@.subrange(0, n as int) =~= replies@);
    }
    for i in 0..n
        invariant
            n == replies@.len(),
            spec_root_pixmap(replies@, pixmap_atom) == spec_root_pixmap(
                replies@.subrange(i as int, n as int),
                pixmap_atom,
            ),
    {
        proof {
            assert(replies@.subrange(i as int, n as int).drop_first() =~= replies@.subrange(
                i as int + 1,
                n as int,
            ));
        }
        match &replies[i] {
            Some(r) => {
                if r.type_atom == pixmap_atom && r.format == 32 && r.length == 1 {
                    return Some(r.value);
                }
            },
            None => {},
        }
    }
    None
}

} // verus!
