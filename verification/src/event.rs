//! The event dispatcher: translates one server event into window-list
//! mutations, frame-pacing updates, and an ordered list of backend
//! operations for the caller to perform.
//!
//! The caller owns the server connection and the GL context; it decodes
//! each wire event into an [`Event`], hands it in here together with the
//! current time in milliseconds, applies the returned [`Action`]s in
//! order, and reports freshly allocated handles back through the setters
//! on [`crate::window::Window`] and the state.
use vstd::prelude::*;

use crate::frame::{should_render, spec_should_render};
use crate::stack::{
    find_window, remove_window, restack_window, spec_find, spec_remove_id, spec_removed,
    spec_restack,
};
use crate::state::State;
use crate::window::{ConfigureInfo, Window, WindowInfo};

verus! {

/// One decoded server event, with everything the handlers decide over
/// carried as plain values. For events about windows the dispatcher may
/// not know yet (create, reparent to root), the caller queries the
/// window's geometry and attributes first and passes the result along;
/// `None` records that the query failed.
#[derive(Clone, Copy, Debug)]
pub enum Event {
    CreateNotify { info: Option<WindowInfo> },
    DestroyNotify { window: u32 },
    ConfigureNotify { window: u32, geometry: ConfigureInfo, above_sibling: u32 },
    MapNotify { window: u32 },
    UnmapNotify { window: u32 },
    ReparentNotify { window: u32, parent: u32, info: Option<WindowInfo> },
    CirculateNotify { window: u32, place_on_top: bool },
    Expose { count: u16 },
    PropertyNotify,
    DamageNotify { drawable: u32, damage: u32 },
}

/// The handles a removed record owned; the caller must release exactly
/// these, once. A 0 handle was never allocated and releases as a no-op.
#[derive(Clone, Copy, PartialEq, Eq, Structural, Debug)]
pub struct Resources {
    pub pixmap: u32,
    pub damage: u32,
    pub glxpixmap: u64,
    pub texture: u32,
    pub vbo: u32,
}

/// One backend operation the caller performs after a handler returns,
/// in list order.
#[derive(Clone, Copy, PartialEq, Eq, Structural, Debug)]
pub enum Action {
    /// Create a vertex buffer for the window and load its quad.
    InitWindow(u32),
    /// Re-upload the window's quad from its current geometry.
    UpdatePos(u32),
    /// Re-name the window's backing pixmap and rebuild damage tracker,
    /// GL pixmap binding and texture object.
    UpdatePixmap(u32),
    /// Bind the window's GL pixmap contents into its texture.
    UpdateTexture(u32),
    /// Subtract the reported damage region so the server keeps notifying.
    SubtractDamage(u32),
    /// Draw the window's textured quad onto the back buffer.
    DrawWindow(u32),
    /// Swap buffers and repaint the root background.
    Render,
    /// Release the handles of a removed record.
    Release(Resources),
}

/// How many frames a run of operations emits: the number of buffer swaps
/// in it.
pub open spec fn spec_render_count(acts: Seq<Action>) -> nat
    decreases acts.len(),
{
    if acts.len() == 0 {
        0
    } else {
        spec_render_count(acts.drop_last()) + (if acts.last() == Action::Render {
            1nat
        } else {
            0nat
        })
    }
}

/// The handles owned by one record.
pub open spec fn spec_resources_of(w: Window) -> Resources {
    Resources {
        pixmap: w.pixmap,
        damage: w.damage,
        glxpixmap: w.context.glxpixmap,
        texture: w.context.texture,
        vbo: w.context.vbo,
    }
}

/// Draw operations for every mapped window, bottom to top in list order.
pub open spec fn spec_draw_actions(s: Seq<Window>) -> Seq<Action>
    decreases s.len(),
{
    if s.len() == 0 {
        Seq::empty()
    } else {
        spec_draw_actions(s.drop_last()) + (if s.last().mapped {
            seq![Action::DrawWindow(s.last().id)]
        } else {
            Seq::empty()
        })
    }
}

/// A full frame: draw every mapped window, then swap and repaint the root.
pub open spec fn spec_frame_actions(s: Seq<Window>) -> Seq<Action> {
    spec_draw_actions(s).push(Action::Render)
}

/// Release operations for a run of removed records, in list order.
pub open spec fn spec_release_actions(removed: Seq<Window>) -> Seq<Action>
    decreases removed.len(),
{
    if removed.len() == 0 {
        Seq::empty()
    } else {
        spec_release_actions(removed.drop_last()).push(
            Action::Release(spec_resources_of(removed.last())),
        )
    }
}

/// The GPU (re)initialisation run for a window that became visible:
/// vertex buffer, quad upload, fresh backing pixmap, fresh texture.
pub open spec fn spec_refresh_actions(id: u32) -> Seq<Action> {
    seq![
        Action::InitWindow(id),
        Action::UpdatePos(id),
        Action::UpdatePixmap(id),
        Action::UpdateTexture(id),
    ]
}

/// Appends a draw of every mapped window followed by a buffer swap.
fn push_frame_actions(windows: &Vec<Window>, acts: &mut Vec<Action>)
    ensures
        final(acts)@ == old(acts)@ + spec_frame_actions(windows@),
{
    let n = windows.len();
    proof {
        assert(old(acts)@ + spec_draw_actions(windows@.take(0)) =~= old(acts)@);
    }
    for i in 0..n
        invariant
            n == windows@.len(),
            acts@ == old(acts)@ + spec_draw_actions(windows@.take(i as int)),
    {
        proof {
            assert(windows@.take(i as int + 1).drop_last() =~= windows@.take(i as int));
            assert(windows@.take(i as int + 1).last() == windows@[i as int]);
        }
        let w = windows[i];
        if w.mapped {
            acts.push(Action::DrawWindow(w.id));
        }
        proof {
            assert(acts@ =~= old(acts)@ + spec_draw_actions(windows@.take(i as int + 1)));
        }
    }
    proof {
        assert(windows@.take(n as int) =~= windows@);
    }
    acts.push(Action::Render);
    proof {
        assert(acts@ =~= old(acts)@ + spec_frame_actions(windows@));
    }
}

/// Appends one release operation per removed record.
fn push_release_actions(removed: &Vec<Window>, acts: &mut Vec<Action>)
    ensures
        final(acts)@ == old(acts)@ + spec_release_actions(removed@),
{
    let n = removed.len();
    proof {
        assert(old(acts)@ + spec_release_actions(removed@.take(0)) =~= old(acts)@);
    }
    for i in 0..n
        invariant
            n == removed@.len(),
            acts@ == old(acts)@ + spec_release_actions(removed@.take(i as int)),
    {
        proof {
            assert(removed@.take(i as int + 1).drop_last() =~= removed@.take(i as int));
            assert(removed@.take(i as int + 1).last() == removed@[i as int]);
        }
        let w = removed[i];
        acts.push(
            Action::Release(
                Resources {
                    pixmap: w.pixmap,
                    damage: w.damage,
                    glxpixmap: w.context.glxpixmap,
                    texture: w.context.texture,
                    vbo: w.context.vbo,
                },
            ),
        );
        proof {
            assert(acts@ =~= old(acts)@ + spec_release_actions(removed@.take(i as int + 1)));
        }
    }
    proof {
        assert(removed@.take(n as int) =~= removed@);
    }
}

/// The startup pass over the initial window list: every window that is
/// already mapped gets the full GPU initialisation run and a draw, in
/// stacking order, and one frame ends the pass.
pub open spec fn spec_initial_window_actions(s: Seq<Window>) -> Seq<Action>
    decreases s.len(),
{
    if s.len() == 0 {
        Seq::empty()
    } else {
        spec_initial_window_actions(s.drop_last()) + (if s.last().mapped {
            spec_refresh_actions(s.last().id).push(Action::DrawWindow(s.last().id))
        } else {
            Seq::empty()
        })
    }
}

/// Operations to bring a fresh window list onto the screen: initialise
/// and draw every mapped window bottom to top, then emit one frame.
pub open spec fn spec_initial_actions(s: Seq<Window>) -> Seq<Action> {
    spec_initial_window_actions(s).push(Action::Render)
}

/// The startup render: initialises GPU state for every initially mapped
/// window, draws them in stacking order, and emits the first frame.
pub fn initial_render(state: &State) -> (actions: Vec<Action>)
    ensures
        actions@ == spec_initial_actions(state.windows@),
{
    let mut acts: Vec<Action> = Vec::new();
    let n = state.windows.len();
    proof {
        assert(acts@ =~= spec_initial_window_actions(state.windows@.take(0)));
    }
    for i in 0..n
        invariant
            n == state.windows@.len(),
            acts@ == spec_initial_window_actions(state.windows@.take(i as int)),
    {
        proof {
            assert(state.windows@.take(i as int + 1).drop_last() =~= state.windows@.take(
                i as int,
            ));
            assert(state.windows@.take(i as int + 1).last() == state.windows@[i as int]);
        }
        let w = state.windows[i];
        if w.mapped {
            acts.push(Action::InitWindow(w.id));
            acts.push(Action::UpdatePos(w.id));
            acts.push(Action::UpdatePixmap(w.id));
            acts.push(Action::UpdateTexture(w.id));
            acts.push(Action::DrawWindow(w.id));
        }
        proof {
            assert(acts@ =~= spec_initial_window_actions(state.windows@.take(i as int + 1)));
        }
    }
    proof {
        assert(state.windows@.take(n as int) =~= state.windows@);
    }
    acts.push(Action::Render);
    acts
}

/// The list after a create event: the new record goes on top. A failed
/// info query leaves the list unchanged.
pub open spec fn spec_create(s: Seq<Window>, info: Option<WindowInfo>) -> Seq<Window> {
    match info {
        Some(i) => s.push(Window::spec_from_info(i)),
        None => s,
    }
}

/// Operations for a create event: GPU initialisation when the new window
/// is already mapped, then a frame.
pub open spec fn spec_create_actions(s: Seq<Window>, info: Option<WindowInfo>) -> Seq<Action> {
    (match info {
        Some(i) => if i.mapped {
            spec_refresh_actions(i.id)
        } else {
            Seq::empty()
        },
        None => Seq::empty(),
    }) + spec_frame_actions(spec_create(s, info))
}

/// A window was created: record it (topmost), initialise its GPU state if
/// it is already viewable, and emit a frame.
pub fn handle_create(state: &mut State, info: Option<WindowInfo>) -> (actions: Vec<Action>)
    ensures
        final(state).windows@ == spec_create(old(state).windows@, info),
        actions@ == spec_create_actions(old(state).windows@, info),
        final(state).root == old(state).root,
        final(state).last_render == old(state).last_render,
        final(state).refresh_interval == old(state).refresh_interval,
{
    let mut acts: Vec<Action> = Vec::new();
    match info {
        Some(i) => {
            let w = Window::new(&i);
            if w.mapped {
                acts.push(Action::InitWindow(w.id));
                acts.push(Action::UpdatePos(w.id));
                acts.push(Action::UpdatePixmap(w.id));
                acts.push(Action::UpdateTexture(w.id));
                proof {
                    assert(acts@ =~= spec_refresh_actions(i.id));
                }
            }
            state.windows.push(w);
        },
        None => {},
    }
    push_frame_actions(&state.windows, &mut acts);
    proof {
        assert(acts@ =~= spec_create_actions(old(state).windows@, info));
    }
    acts
}

/// Operations for a destroy event: release the removed record's handles,
/// then a frame.
pub open spec fn spec_destroy_actions(s: Seq<Window>, window: u32) -> Seq<Action> {
    spec_release_actions(spec_removed(s, window)) + spec_frame_actions(spec_remove_id(s, window))
}

/// A window was destroyed: drop its record, release every handle it owned
/// exactly once, and emit a frame.
pub fn handle_destroy(state: &mut State, window: u32) -> (actions: Vec<Action>)
    ensures
        final(state).windows@ == spec_remove_id(old(state).windows@, window),
        actions@ == spec_destroy_actions(old(state).windows@, window),
        final(state).root == old(state).root,
        final(state).last_render == old(state).last_render,
        final(state).refresh_interval == old(state).refresh_interval,
{
    let mut acts: Vec<Action> = Vec::new();
    let removed = remove_window(&mut state.windows, window);
    push_release_actions(&removed, &mut acts);
    push_frame_actions(&state.windows, &mut acts);
    proof {
        assert(acts@ =~= spec_destroy_actions(old(state).windows@, window));
    }
    acts
}

/// The list after a configure event: geometry overwritten from the event,
/// then the record restacked above its reported sibling. Configure events
/// for unknown windows (the root among them) leave the list unchanged.
pub open spec fn spec_configure(
    s: Seq<Window>,
    window: u32,
    cfg: ConfigureInfo,
    above: u32,
) -> Seq<Window> {
    match spec_find(s, window) {
        Some(i) => spec_restack(s.update(i, s[i].spec_with_configure(cfg)), window, above),
        None => s,
    }
}

/// Operations for a configure event: a pixmap/texture refresh when the
/// new geometry invalidates the backing store of a mapped window, a quad
/// re-upload, then a frame.
pub open spec fn spec_configure_actions(
    s: Seq<Window>,
    window: u32,
    cfg: ConfigureInfo,
    above: u32,
) -> Seq<Action> {
    match spec_find(s, window) {
        Some(i) => (if s[i].mapped && s[i].spec_pixmap_stale(cfg) {
            seq![Action::UpdatePixmap(window), Action::UpdateTexture(window)]
        } else {
            Seq::empty()
        }) + seq![Action::UpdatePos(window)] + spec_frame_actions(
            spec_configure(s, window, cfg, above),
        ),
        None => spec_frame_actions(s),
    }
}

/// A window's geometry, border, override-redirect or stacking changed:
/// refresh its backing store if the change invalidated it, apply the new
/// geometry, restack, and emit a frame.
pub fn handle_configure(
    state: &mut State,
    window: u32,
    cfg: ConfigureInfo,
    above_sibling: u32,
) -> (actions: Vec<Action>)
    ensures
        final(state).windows@ == spec_configure(old(state).windows@, window, cfg, above_sibling),
        actions@ == spec_configure_actions(old(state).windows@, window, cfg, above_sibling),
        final(state).root == old(state).root,
        final(state).last_render == old(state).last_render,
        final(state).refresh_interval == old(state).refresh_interval,
{
    let mut acts: Vec<Action> = Vec::new();
    match find_window(&state.windows, window) {
        Some(i) => {
            let w = state.windows[i];
            if w.mapped && (w.width != cfg.width || w.height != cfg.height
                || w.override_redirect != cfg.override_redirect || w.border_width
                != cfg.border_width) {
                acts.push(Action::UpdatePixmap(window));
                acts.push(Action::UpdateTexture(window));
            }
            let mut rec = state.windows[i];
            rec.update_using_event(&cfg);
            state.windows[i] = rec;
            acts.push(Action::UpdatePos(window));
            restack_window(window, above_sibling, &mut state.windows);
            push_frame_actions(&state.windows, &mut acts);
        },
        None => {
            push_frame_actions(&state.windows, &mut acts);
        },
    }
    proof {
        assert(acts@ =~= spec_configure_actions(old(state).windows@, window, cfg, above_sibling));
    }
    acts
}

/// The list after a map event: the record marked viewable.
pub open spec fn spec_map_notify(s: Seq<Window>, window: u32) -> Seq<Window> {
    match spec_find(s, window) {
        Some(i) => s.update(i, Window { mapped: true, ..s[i] }),
        None => s,
    }
}

/// Operations for a map event: the full GPU initialisation run, then a
/// frame. Map events for unknown windows do nothing.
pub open spec fn spec_map_actions(s: Seq<Window>, window: u32) -> Seq<Action> {
    match spec_find(s, window) {
        Some(i) => spec_refresh_actions(window) + spec_frame_actions(spec_map_notify(s, window)),
        None => Seq::empty(),
    }
}

/// A window became viewable: mark it mapped, build fresh GPU state for its
/// current backing store, and emit a frame.
pub fn handle_map(state: &mut State, window: u32) -> (actions: Vec<Action>)
    ensures
        final(state).windows@ == spec_map_notify(old(state).windows@, window),
        actions@ == spec_map_actions(old(state).windows@, window),
        final(state).root == old(state).root,
        final(state).last_render == old(state).last_render,
        final(state).refresh_interval == old(state).refresh_interval,
{
    let mut acts: Vec<Action> = Vec::new();
    match find_window(&state.windows, window) {
        Some(i) => {
            let mut rec = state.windows[i];
            rec.mapped = true;
            state.windows[i] = rec;
            acts.push(Action::InitWindow(window));
            acts.push(Action::UpdatePos(window));
            acts.push(Action::UpdatePixmap(window));
            acts.push(Action::UpdateTexture(window));
            push_frame_actions(&state.windows, &mut acts);
        },
        None => {},
    }
    proof {
        assert(acts@ =~= spec_map_actions(old(state).windows@, window));
    }
    acts
}

/// The list after an unmap event: the record marked not viewable; its
/// handles stay until the next map or destroy replaces or releases them.
pub open spec fn spec_unmap_notify(s: Seq<Window>, window: u32) -> Seq<Window> {
    match spec_find(s, window) {
        Some(i) => s.update(i, Window { mapped: false, ..s[i] }),
        None => s,
    }
}

/// Operations for an unmap event: just a frame, and nothing for unknown
/// windows.
pub open spec fn spec_unmap_actions(s: Seq<Window>, window: u32) -> Seq<Action> {
    match spec_find(s, window) {
        Some(i) => spec_frame_actions(spec_unmap_notify(s, window)),
        None => Seq::empty(),
    }
}

/// A window was hidden: mark it unmapped and emit a frame without it.
pub fn handle_unmap(state: &mut State, window: u32) -> (actions: Vec<Action>)
    ensures
        final(state).windows@ == spec_unmap_notify(old(state).windows@, window),
        actions@ == spec_unmap_actions(old(state).windows@, window),
        final(state).root == old(state).root,
        final(state).last_render == old(state).last_render,
        final(state).refresh_interval == old(state).refresh_interval,
{
    let mut acts: Vec<Action> = Vec::new();
    match find_window(&state.windows, window) {
        Some(i) => {
            let mut rec = state.windows[i];
            rec.mapped = false;
            state.windows[i] = rec;
            push_frame_actions(&state.windows, &mut acts);
        },
        None => {},
    }
    proof {
        assert(acts@ =~= spec_unmap_actions(old(state).windows@, window));
    }
    acts
}

/// The list after a reparent event: a window handed to the root is
/// recorded if unknown; a window handed to any other parent stops being a
/// top-level and its record is dropped.
pub open spec fn spec_reparent(
    s: Seq<Window>,
    root_id: u32,
    window: u32,
    parent: u32,
    info: Option<WindowInfo>,
) -> Seq<Window> {
    if parent == root_id {
        if spec_find(s, window) is None {
            spec_create(s, info)
        } else {
            s
        }
    } else {
        spec_remove_id(s, window)
    }
}

/// Operations for a reparent event: GPU initialisation when a new mapped
/// top-level appears, releases when one leaves; no frame either way.
pub open spec fn spec_reparent_actions(
    s: Seq<Window>,
    root_id: u32,
    window: u32,
    parent: u32,
    info: Option<WindowInfo>,
) -> Seq<Action> {
    if parent == root_id {
        if spec_find(s, window) is None {
            match info {
                Some(i) => if i.mapped {
                    spec_refresh_actions(i.id)
                } else {
                    Seq::empty()
                },
                None => Seq::empty(),
            }
        } else {
            Seq::empty()
        }
    } else {
        spec_release_actions(spec_removed(s, window))
    }
}

/// A window changed parents: track it when it became a top-level under the
/// root, drop it (releasing its handles) when it moved away.
pub fn handle_reparent(
    state: &mut State,
    window: u32,
    parent: u32,
    info: Option<WindowInfo>,
) -> (actions: Vec<Action>)
    ensures
        final(state).windows@ == spec_reparent(
            old(state).windows@,
            old(state).root.id,
            window,
            parent,
            info,
        ),
        actions@ == spec_reparent_actions(
            old(state).windows@,
            old(state).root.id,
            window,
            parent,
            info,
        ),
        final(state).root == old(state).root,
        final(state).last_render == old(state).last_render,
        final(state).refresh_interval == old(state).refresh_interval,
{
    let mut acts: Vec<Action> = Vec::new();
    if parent == state.root.id {
        if find_window(&state.windows, window).is_none() {
            match info {
                Some(i) => {
                    let w = Window::new(&i);
                    if w.mapped {
                        acts.push(Action::InitWindow(w.id));
                        acts.push(Action::UpdatePos(w.id));
                        acts.push(Action::UpdatePixmap(w.id));
                        acts.push(Action::UpdateTexture(w.id));
                        proof {
                            assert(acts@ =~= spec_refresh_actions(i.id));
                        }
                    }
                    state.windows.push(w);
                },
                None => {},
            }
        }
    } else {
        let removed = remove_window(&mut state.windows, window);
        push_release_actions(&removed, &mut acts);
    }
    acts
}

/// Whether a reparent event needs a window-info query before it can be
/// handled: only when the destination is the root and the window is not
/// yet tracked.
pub fn needs_reparent_query(state: &State, window: u32, parent: u32) -> (r: bool)
    ensures
        r == (parent == state.root.id && spec_find(state.windows@, window) is None),
{
    parent == state.root.id && find_window(&state.windows, window).is_none()
}

/// The list after a circulate event: the record moves to the top or to
/// the bottom of the stack.
pub open spec fn spec_circulate(s: Seq<Window>, window: u32, place_on_top: bool) -> Seq<Window> {
    match spec_find(s, window) {
        Some(i) => {
            let w = s[i];
            let rest = s.remove(i);
            if place_on_top {
                rest.push(w)
            } else {
                rest.insert(0, w)
            }
        },
        None => s,
    }
}

/// A window was circulated: move it to the top or bottom of the stack and
/// emit a frame.
pub fn handle_circulate(state: &mut State, window: u32, place_on_top: bool) -> (actions: Vec<
    Action,
>)
    ensures
        final(state).windows@ == spec_circulate(old(state).windows@, window, place_on_top),
        actions@ == spec_frame_actions(spec_circulate(old(state).windows@, window, place_on_top)),
        final(state).root == old(state).root,
        final(state).last_render == old(state).last_render,
        final(state).refresh_interval == old(state).refresh_interval,
{
    let mut acts: Vec<Action> = Vec::new();
    match find_window(&state.windows, window) {
        Some(i) => {
            let w = state.windows.remove(i);
            if place_on_top {
                state.windows.push(w);
            } else {
                state.windows.insert(0, w);
            }
        },
        None => {},
    }
    push_frame_actions(&state.windows, &mut acts);
    acts
}

/// Operations for an expose event: nothing while more expose events are
/// pending (`count > 0`), one frame for the final one.
pub open spec fn spec_expose_actions(s: Seq<Window>, count: u16) -> Seq<Action> {
    if count == 0 {
        spec_frame_actions(s)
    } else {
        Seq::empty()
    }
}

/// Part of the screen was exposed: redraw once the expose series ends.
pub fn handle_expose(state: &mut State, count: u16) -> (actions: Vec<Action>)
    ensures
        *final(state) == *old(state),
        actions@ == spec_expose_actions(old(state).windows@, count),
{
    let mut acts: Vec<Action> = Vec::new();
    if count == 0 {
        push_frame_actions(&state.windows, &mut acts);
    }
    acts
}

/// Operations for a damage event: always subtract the reported region,
/// rebind the damaged window's texture when it is tracked, and emit a
/// frame only when the refresh interval has passed.
pub open spec fn spec_damage_actions(
    s: Seq<Window>,
    drawable: u32,
    damage: u32,
    now: u64,
    last: u64,
    interval: u64,
) -> Seq<Action> {
    seq![Action::SubtractDamage(damage)] + (if spec_find(s, drawable) is Some {
        seq![Action::UpdateTexture(drawable)]
    } else {
        Seq::empty()
    }) + (if spec_should_render(now, last, interval) {
        spec_frame_actions(s)
    } else {
        Seq::empty()
    })
}

/// A window's contents changed: keep damage reporting alive, refresh the
/// window's texture, and emit a rate-limited frame.
pub fn handle_damage(state: &mut State, drawable: u32, damage: u32, now: u64) -> (actions: Vec<
    Action,
>)
    ensures
        final(state).windows@ == old(state).windows@,
        final(state).root == old(state).root,
        final(state).refresh_interval == old(state).refresh_interval,
        final(state).last_render == (if spec_should_render(
            now,
            old(state).last_render,
            old(state).refresh_interval,
        ) {
            now
        } else {
            old(state).last_render
        }),
        actions@ == spec_damage_actions(
            old(state).windows@,
            drawable,
            damage,
            now,
            old(state).last_render,
            old(state).refresh_interval,
        ),
{
    let mut acts: Vec<Action> = Vec::new();
    acts.push(Action::SubtractDamage(damage));
    if find_window(&state.windows, drawable).is_some() {
        acts.push(Action::UpdateTexture(drawable));
    }
    if should_render(now, state.last_render, state.refresh_interval) {
        push_frame_actions(&state.windows, &mut acts);
        state.last_render = now;
    }
    proof {
        assert(acts@ =~= spec_damage_actions(
            old(state).windows@,
            drawable,
            damage,
            now,
            old(state).last_render,
            old(state).refresh_interval,
        ));
    }
    acts
}

/// The window list, last-frame time, and backend operations one event
/// turns into.
pub open spec fn spec_step(
    s: Seq<Window>,
    last: u64,
    interval: u64,
    root_id: u32,
    ev: Event,
    now: u64,
) -> (Seq<Window>, u64, Seq<Action>) {
    match ev {
        Event::CreateNotify { info } => (spec_create(s, info), last, spec_create_actions(s, info)),
        Event::DestroyNotify { window } => (
            spec_remove_id(s, window),
            last,
            spec_destroy_actions(s, window),
        ),
        Event::ConfigureNotify { window, geometry, above_sibling } => (
            spec_configure(s, window, geometry, above_sibling),
            last,
            spec_configure_actions(s, window, geometry, above_sibling),
        ),
        Event::MapNotify { window } => (
            spec_map_notify(s, window),
            last,
            spec_map_actions(s, window),
        ),
        Event::UnmapNotify { window } => (
            spec_unmap_notify(s, window),
            last,
            spec_unmap_actions(s, window),
        ),
        Event::ReparentNotify { window, parent, info } => (
            spec_reparent(s, root_id, window, parent, info),
            last,
            spec_reparent_actions(s, root_id, window, parent, info),
        ),
        Event::CirculateNotify { window, place_on_top } => (
            spec_circulate(s, window, place_on_top),
            last,
            spec_frame_actions(spec_circulate(s, window, place_on_top)),
        ),
        Event::Expose { count } => (s, last, spec_expose_actions(s, count)),
        Event::PropertyNotify => (s, last, Seq::empty()),
        Event::DamageNotify { drawable, damage } => (
            s,
            if spec_should_render(now, last, interval) {
                now
            } else {
                last
            },
            spec_damage_actions(s, drawable, damage, now, last, interval),
        ),
    }
}

/// Dispatches one decoded server event: mutates the window list and the
/// frame-pacing state exactly as [`spec_step`] says, and returns the
/// backend operations to perform, in order.
pub fn handle_event(state: &mut State, event: &Event, now: u64) -> (actions: Vec<Action>)
    ensures
        ({
            let (ws, lr, acts) = spec_step(
                old(state).windows@,
                old(state).last_render,
                old(state).refresh_interval,
                old(state).root.id,
                *event,
                now,
            );
            &&& final(state).windows@ == ws
            &&& final(state).last_render == lr
            &&& actions@ == acts
        }),
        final(state).root == old(state).root,
        final(state).refresh_interval == old(state).refresh_interval,
{
    match event {
        Event::CreateNotify { info } => handle_create(state, *info),
        Event::DestroyNotify { window } => handle_destroy(state, *window),
        Event::ConfigureNotify { window, geometry, above_sibling } => handle_configure(
            state,
            *window,
            *geometry,
            *above_sibling,
        ),
        Event::MapNotify { window } => handle_map(state, *window),
        Event::UnmapNotify { window } => handle_unmap(state, *window),
        Event::ReparentNotify { window, parent, info } => handle_reparent(
            state,
            *window,
            *parent,
            *info,
        ),
        Event::CirculateNotify { window, place_on_top } => handle_circulate(
            state,
            *window,
            *place_on_top,
        ),
        Event::Expose { count } => handle_expose(state, *count),
        Event::PropertyNotify => Vec::new(),
        Event::DamageNotify { drawable, damage } => handle_damage(state, *drawable, *damage, now),
    }
}

} // verus!
