//! The invariants and round-trip properties the event dispatcher
//! guarantees, stated over the same specification functions its
//! contracts use and proved once and for all.
use vstd::prelude::*;

use crate::event::{
    spec_create, spec_create_actions, spec_damage_actions, spec_draw_actions, spec_frame_actions,
    spec_initial_actions, spec_initial_window_actions, spec_map_actions, spec_map_notify,
    spec_refresh_actions, spec_release_actions, spec_render_count, spec_reparent,
    spec_resources_of, spec_step, spec_unmap_notify, Action, Event,
};
use crate::frame::{lemma_damage_rate_limit, render_count, spec_rate_step, spec_should_render};
use crate::stack::{
    has_id, lemma_find_is_first, lemma_find_update_same, lemma_has_id_iff_find,
    lemma_insert_unique, lemma_push_unique, lemma_remove_id_no_id, lemma_remove_id_noop,
    lemma_remove_id_unique, lemma_remove_index, lemma_removed_empty, lemma_restack_unique,
    lemma_update_same_id_unique, spec_find, spec_remove_id, spec_removed, spec_restack,
    unique_ids,
};
use crate::window::{Window, WindowInfo};

verus! {

/// What a well-formed server event stream guarantees about one event:
/// a window is only created, or reparented to the root, under an id that
/// is not already tracked, and a reparent's info describes the reparented
/// window. Everything else may arrive in any state.
pub open spec fn event_consistent(s: Seq<Window>, ev: Event) -> bool {
    match ev {
        Event::CreateNotify { info } => match info {
            Some(wi) => !has_id(s, wi.id),
            None => true,
        },
        Event::ReparentNotify { window, parent, info } => match info {
            Some(wi) => wi.id == window && !has_id(s, wi.id),
            None => true,
        },
        _ => true,
    }
}

/// No event introduces a duplicate id: every step of the dispatcher
/// keeps one record per window, provided the stream is well formed in
/// the sense of [`event_consistent`].
pub proof fn lemma_step_preserves_unique(
    s: Seq<Window>,
    last: u64,
    interval: u64,
    root_id: u32,
    ev: Event,
    now: u64,
)
    requires
        unique_ids(s),
        event_consistent(s, ev),
    ensures
        unique_ids(spec_step(s, last, interval, root_id, ev, now).0),
{
    match ev {
        Event::CreateNotify { info } => {
            match info {
                Some(wi) => {
                    lemma_push_unique(s, Window::spec_from_info(wi));
                },
                None => {},
            }
        },
        Event::DestroyNotify { window } => {
            lemma_remove_id_unique(s, window);
        },
        Event::ConfigureNotify { window, geometry, above_sibling } => {
            lemma_find_is_first(s, window);
            match spec_find(s, window) {
                Some(i) => {
                    let s1 = s.update(i, s[i].spec_with_configure(geometry));
                    lemma_update_same_id_unique(s, i, s[i].spec_with_configure(geometry));
                    lemma_restack_unique(s1, window, above_sibling);
                },
                None => {},
            }
        },
        Event::MapNotify { window } => {
            lemma_find_is_first(s, window);
            match spec_find(s, window) {
                Some(i) => {
                    lemma_update_same_id_unique(s, i, Window { mapped: true, ..s[i] });
                },
                None => {},
            }
        },
        Event::UnmapNotify { window } => {
            lemma_find_is_first(s, window);
            match spec_find(s, window) {
                Some(i) => {
                    lemma_update_same_id_unique(s, i, Window { mapped: false, ..s[i] });
                },
                None => {},
            }
        },
        Event::ReparentNotify { window, parent, info } => {
            if parent == root_id {
                if spec_find(s, window) is None {
                    match info {
                        Some(wi) => {
                            lemma_push_unique(s, Window::spec_from_info(wi));
                        },
                        None => {},
                    }
                }
            } else {
                lemma_remove_id_unique(s, window);
            }
        },
        Event::CirculateNotify { window, place_on_top } => {
            lemma_find_is_first(s, window);
            match spec_find(s, window) {
                Some(i) => {
                    lemma_remove_index(s, i);
                    if place_on_top {
                        lemma_push_unique(s.remove(i), s[i]);
                    } else {
                        lemma_insert_unique(s.remove(i), s[i], 0);
                    }
                },
                None => {},
            }
        },
        Event::Expose { count } => {},
        Event::PropertyNotify => {},
        Event::DamageNotify { drawable, damage } => {},
    }
}

/// After a restack, the moved record stands immediately above the record
/// it was stacked onto; when the sibling is the `NONE` sentinel or is not
/// tracked, it stands at the top. No record appears or disappears.
pub proof fn lemma_restack_places_window(s: Seq<Window>, window: u32, above: u32)
    requires
        unique_ids(s),
        spec_find(s, window) is Some,
    ensures
        spec_restack(s, window, above).len() == s.len(),
        ({
            let r = spec_restack(s, window, above);
            let i = spec_find(s, window)->Some_0;
            let rest = s.remove(i);
            if above == 0 {
                r.last() == s[i]
            } else {
                match spec_find(rest, above) {
                    Some(p) => r[p + 1] == s[i] && r[p].id == above,
                    None => r.last() == s[i],
                }
            }
        }),
{
    let i = spec_find(s, window)->Some_0;
    lemma_find_is_first(s, window);
    let w = s[i];
    let rest = s.remove(i);
    s.remove_ensures(i);
    if above != 0 {
        lemma_find_is_first(rest, above);
        match spec_find(rest, above) {
            Some(p) => {
                rest.insert_ensures(p + 1, w);
                assert(rest.insert(p + 1, w)[p] == rest[p]);
            },
            None => {},
        }
    }
}

/// After a destroy event no record with the destroyed id remains, and
/// when the stream kept ids unique the destroyed window's handles are
/// released exactly once: one release operation, carrying exactly the
/// handles its record owned.
pub proof fn lemma_destroy_releases_once(s: Seq<Window>, window: u32)
    requires
        unique_ids(s),
    ensures
        !has_id(spec_remove_id(s, window), window),
        has_id(s, window) ==> spec_release_actions(spec_removed(s, window)) =~= seq![
            Action::Release(spec_resources_of(s[spec_find(s, window)->Some_0])),
        ],
        !has_id(s, window) ==> spec_release_actions(spec_removed(s, window))
            =~= Seq::<Action>::empty(),
    decreases s.len(),
{
    lemma_remove_id_no_id(s, window);
    lemma_has_id_iff_find(s, window);
    if !has_id(s, window) {
        lemma_removed_empty(s, window);
    } else {
        lemma_find_is_first(s, window);
        let i = spec_find(s, window)->Some_0;
        lemma_removed_singleton(s, window, i);
        let single = seq![s[i]];
        assert(spec_release_actions(Seq::<Window>::empty()) =~= Seq::<Action>::empty());
        assert(single.drop_last() =~= Seq::<Window>::empty());
        assert(single.last() == s[i]);
        assert(spec_removed(s, window) == single);
        assert(spec_release_actions(single) =~= seq![
            Action::Release(spec_resources_of(s[i])),
        ]);
    }
}

/// Under unique ids, removal takes out exactly the one record at the
/// found index.
proof fn lemma_removed_singleton(s: Seq<Window>, window: u32, i: int)
    requires
        unique_ids(s),
        0 <= i < s.len(),
        s[i].id == window,
    ensures
        spec_removed(s, window) =~= seq![s[i]],
    decreases s.len(),
{
    assert(forall|j: int| 0 <= j < s.drop_last().len() ==> s.drop_last()[j] == s[j]);
    if i == s.len() - 1 {
        assert forall|j: int| 0 <= j < s.drop_last().len() implies s.drop_last()[j].id
            != window by {
            assert(s[j].id != s[i].id);
        }
        lemma_removed_empty(s.drop_last(), window);
    } else {
        assert(s.last().id != window) by {
            assert(s[i].id != s[s.len() - 1].id);
        }
        lemma_removed_singleton(s.drop_last(), window, i);
    }
}

/// A record refreshed by the caller after a map or create: the fresh
/// backing handles and the fresh vertex buffer installed together.
pub open spec fn spec_refreshed(
    w: Window,
    pixmap: u32,
    damage: u32,
    glxpixmap: u64,
    texture: u32,
    vbo: u32,
) -> Window {
    w.spec_with_fresh_pixmap(pixmap, damage, glxpixmap, texture).spec_with_vbo(vbo)
}

/// After the dispatcher processes a map event for a tracked window, its
/// operations demand the full GPU refresh run, and once the caller
/// reports nonzero handles back, the record is mapped and fully armed:
/// backing pixmap, damage tracker, GL pixmap binding and texture all
/// valid.
pub proof fn lemma_map_arms_window(
    s: Seq<Window>,
    window: u32,
    pixmap: u32,
    damage: u32,
    glxpixmap: u64,
    texture: u32,
    vbo: u32,
)
    requires
        spec_find(s, window) is Some,
        pixmap != 0,
        damage != 0,
        glxpixmap != 0,
        texture != 0,
    ensures
        spec_map_actions(s, window) == spec_refresh_actions(window) + crate::event::spec_frame_actions(
            spec_map_notify(s, window),
        ),
        ({
            let i = spec_find(s, window)->Some_0;
            let mapped = spec_map_notify(s, window);
            let armed = mapped.update(
                i,
                spec_refreshed(mapped[i], pixmap, damage, glxpixmap, texture, vbo),
            );
            &&& armed[i].mapped
            &&& armed[i].armed()
            &&& armed[i].id == window
            &&& armed.len() == s.len()
        }),
{
    let i = spec_find(s, window)->Some_0;
    lemma_find_is_first(s, window);
}

/// The same guarantee for a window that is created already mapped: the
/// create operations demand the refresh run, and reporting nonzero
/// handles leaves the new topmost record mapped and armed.
pub proof fn lemma_create_mapped_arms_window(
    s: Seq<Window>,
    info: WindowInfo,
    pixmap: u32,
    damage: u32,
    glxpixmap: u64,
    texture: u32,
    vbo: u32,
)
    requires
        info.mapped,
        pixmap != 0,
        damage != 0,
        glxpixmap != 0,
        texture != 0,
    ensures
        spec_create_actions(s, Some(info)) == spec_refresh_actions(info.id)
            + crate::event::spec_frame_actions(spec_create(s, Some(info))),
        ({
            let created = spec_create(s, Some(info));
            let armed = created.update(
                created.len() - 1,
                spec_refreshed(created.last(), pixmap, damage, glxpixmap, texture, vbo),
            );
            &&& armed.last().mapped
            &&& armed.last().armed()
            &&& armed.last().id == info.id
            &&& armed.len() == s.len() + 1
        }),
{
}

/// Map, unmap, map again: the record ends mapped, and the handles it
/// carries are exactly the ones reported after the second map -- fresh
/// GPU state, not leftovers of the first map.
pub proof fn lemma_map_unmap_map_round_trip(
    s: Seq<Window>,
    window: u32,
    pixmap1: u32,
    damage1: u32,
    glxpixmap1: u64,
    texture1: u32,
    vbo1: u32,
    pixmap2: u32,
    damage2: u32,
    glxpixmap2: u64,
    texture2: u32,
    vbo2: u32,
)
    requires
        spec_find(s, window) is Some,
        s[spec_find(s, window)->Some_0].id == window,
        pixmap2 != 0,
        damage2 != 0,
        glxpixmap2 != 0,
        texture2 != 0,
    ensures
        ({
            let i = spec_find(s, window)->Some_0;
            let m1 = spec_map_notify(s, window);
            let r1 = m1.update(
                i,
                spec_refreshed(m1[i], pixmap1, damage1, glxpixmap1, texture1, vbo1),
            );
            let u = spec_unmap_notify(r1, window);
            let m2 = spec_map_notify(u, window);
            let r2 = m2.update(
                i,
                spec_refreshed(m2[i], pixmap2, damage2, glxpixmap2, texture2, vbo2),
            );
            &&& r2[i].mapped
            &&& r2[i].armed()
            &&& r2[i].pixmap == pixmap2
            &&& r2[i].damage == damage2
            &&& r2[i].context.glxpixmap == glxpixmap2
            &&& r2[i].context.texture == texture2
            &&& r2[i].context.vbo == vbo2
            &&& r2.len() == s.len()
        }),
{
    let i = spec_find(s, window)->Some_0;
    lemma_find_is_first(s, window);
    let m1 = spec_map_notify(s, window);
    let r1 = m1.update(i, spec_refreshed(m1[i], pixmap1, damage1, glxpixmap1, texture1, vbo1));
    lemma_find_update_same(s, window, Window { mapped: true, ..s[i] });
    lemma_find_update_same(
        m1,
        window,
        spec_refreshed(m1[i], pixmap1, damage1, glxpixmap1, texture1, vbo1),
    );
    let u = spec_unmap_notify(r1, window);
    lemma_find_update_same(r1, window, Window { mapped: false, ..r1[i] });
    let m2 = spec_map_notify(u, window);
    lemma_find_update_same(u, window, Window { mapped: true, ..u[i] });
}

/// Create then destroy of a window that was not tracked before restores
/// the window list exactly -- not just its length.
pub proof fn lemma_create_destroy_round_trip(s: Seq<Window>, info: WindowInfo)
    requires
        !has_id(s, info.id),
    ensures
        spec_remove_id(spec_create(s, Some(info)), info.id) == s,
{
    let w = Window::spec_from_info(info);
    let created = s.push(w);
    assert(created.drop_last() =~= s);
    lemma_remove_id_noop(s, info.id);
}

/// Reparent to the root adds a record for an unknown window, and doing
/// it again changes nothing.
pub proof fn lemma_reparent_to_root_idempotent(
    s: Seq<Window>,
    root_id: u32,
    window: u32,
    info: WindowInfo,
)
    requires
        info.id == window,
    ensures
        spec_find(s, window) is None ==> spec_reparent(s, root_id, window, root_id, Some(info))
            == s.push(Window::spec_from_info(info)),
        spec_reparent(
            spec_reparent(s, root_id, window, root_id, Some(info)),
            root_id,
            window,
            root_id,
            Some(info),
        ) == spec_reparent(s, root_id, window, root_id, Some(info)),
{
    let s1 = spec_reparent(s, root_id, window, root_id, Some(info));
    lemma_find_is_first(s, window);
    if spec_find(s, window) is None {
        let w = Window::spec_from_info(info);
        assert(s1 == s.push(w));
        assert(s.push(w)[s.len() as int].id == window);
        lemma_has_id_iff_find(s1, window);
        assert(has_id(s1, window));
    } else {
        assert(s1 == s);
    }
}

/// Counting frames distributes over concatenated runs of operations.
proof fn lemma_render_count_concat(a: Seq<Action>, b: Seq<Action>)
    ensures
        spec_render_count(a + b) == spec_render_count(a) + spec_render_count(b),
    decreases b.len(),
{
    if b.len() == 0 {
        assert(a + b =~= a);
    } else {
        assert((a + b).drop_last() =~= a + b.drop_last());
        lemma_render_count_concat(a, b.drop_last());
        assert((a + b).last() == b.last());
    }
}

/// Drawing windows emits no frame by itself.
proof fn lemma_draw_actions_render_free(s: Seq<Window>)
    ensures
        spec_render_count(spec_draw_actions(s)) == 0,
    decreases s.len(),
{
    if s.len() > 0 {
        lemma_draw_actions_render_free(s.drop_last());
        let tail: Seq<Action> = if s.last().mapped {
            seq![Action::DrawWindow(s.last().id)]
        } else {
            Seq::empty()
        };
        lemma_render_count_concat(spec_draw_actions(s.drop_last()), tail);
        assert(spec_render_count(tail) == 0) by {
            assert(spec_render_count(Seq::<Action>::empty()) == 0);
            if s.last().mapped {
                assert(tail.drop_last() =~= Seq::<Action>::empty());
            }
        }
    }
}

/// A full frame run swaps buffers exactly once.
pub proof fn lemma_frame_emits_one_render(s: Seq<Window>)
    ensures
        spec_render_count(spec_frame_actions(s)) == 1,
{
    lemma_draw_actions_render_free(s);
    assert(spec_frame_actions(s).drop_last() =~= spec_draw_actions(s));
    assert(spec_frame_actions(s).last() == Action::Render);
}

/// One damage event emits exactly one frame when the refresh interval
/// has passed, and none otherwise.
pub proof fn lemma_damage_render_count(
    s: Seq<Window>,
    drawable: u32,
    damage: u32,
    now: u64,
    last: u64,
    interval: u64,
)
    ensures
        spec_render_count(spec_damage_actions(s, drawable, damage, now, last, interval)) == (
        if spec_should_render(now, last, interval) {
            1nat
        } else {
            0nat
        }),
{
    let first = seq![Action::SubtractDamage(damage)];
    let mid: Seq<Action> = if spec_find(s, drawable) is Some {
        seq![Action::UpdateTexture(drawable)]
    } else {
        Seq::empty()
    };
    let tail: Seq<Action> = if spec_should_render(now, last, interval) {
        spec_frame_actions(s)
    } else {
        Seq::empty()
    };
    assert(spec_render_count(Seq::<Action>::empty()) == 0);
    assert(spec_render_count(first) == 0) by {
        assert(first.drop_last() =~= Seq::<Action>::empty());
    }
    assert(spec_render_count(mid) == 0) by {
        if spec_find(s, drawable) is Some {
            assert(mid.drop_last() =~= Seq::<Action>::empty());
        }
    }
    if spec_should_render(now, last, interval) {
        lemma_frame_emits_one_render(s);
    }
    lemma_render_count_concat(first, mid);
    lemma_render_count_concat(first + mid, tail);
}

/// Releasing resources emits no frame.
proof fn lemma_release_actions_render_free(removed: Seq<Window>)
    ensures
        spec_render_count(spec_release_actions(removed)) == 0,
    decreases removed.len(),
{
    if removed.len() > 0 {
        lemma_release_actions_render_free(removed.drop_last());
        assert(spec_release_actions(removed).drop_last() =~= spec_release_actions(
            removed.drop_last(),
        ));
    }
}

/// The GPU refresh run emits no frame.
proof fn lemma_refresh_render_free(id: u32)
    ensures
        spec_render_count(spec_refresh_actions(id)) == 0,
{
    let r4 = spec_refresh_actions(id);
    let r3 = seq![Action::InitWindow(id), Action::UpdatePos(id), Action::UpdatePixmap(id)];
    let r2 = seq![Action::InitWindow(id), Action::UpdatePos(id)];
    let r1 = seq![Action::InitWindow(id)];
    let r0 = Seq::<Action>::empty();
    assert(r4.drop_last() =~= r3);
    assert(r3.drop_last() =~= r2);
    assert(r2.drop_last() =~= r1);
    assert(r1.drop_last() =~= r0);
    assert(spec_render_count(r0) == 0);
    assert(spec_render_count(r1) == 0);
    assert(spec_render_count(r2) == 0);
    assert(spec_render_count(r3) == 0);
}

/// Frames are emitted only at explicit render points: no single event
/// makes the dispatcher swap buffers more than once.
pub proof fn lemma_step_emits_at_most_one_frame(
    s: Seq<Window>,
    last: u64,
    interval: u64,
    root_id: u32,
    ev: Event,
    now: u64,
)
    ensures
        spec_render_count(spec_step(s, last, interval, root_id, ev, now).2) <= 1,
{
    let empty_acts = Seq::<Action>::empty();
    assert(spec_render_count(empty_acts) == 0);
    match ev {
        Event::CreateNotify { info } => {
            let pre: Seq<Action> = match info {
                Some(i) => if i.mapped {
                    spec_refresh_actions(i.id)
                } else {
                    Seq::empty()
                },
                None => Seq::empty(),
            };
            match info {
                Some(i) => {
                    if i.mapped {
                        lemma_refresh_render_free(i.id);
                    }
                },
                None => {},
            }
            lemma_frame_emits_one_render(spec_create(s, info));
            lemma_render_count_concat(pre, spec_frame_actions(spec_create(s, info)));
        },
        Event::DestroyNotify { window } => {
            lemma_release_actions_render_free(spec_removed(s, window));
            lemma_frame_emits_one_render(spec_remove_id(s, window));
            lemma_render_count_concat(
                spec_release_actions(spec_removed(s, window)),
                spec_frame_actions(spec_remove_id(s, window)),
            );
        },
        Event::ConfigureNotify { window, geometry, above_sibling } => {
            lemma_find_is_first(s, window);
            match spec_find(s, window) {
                Some(i) => {
                    let pre: Seq<Action> = if s[i].mapped && s[i].spec_pixmap_stale(geometry) {
                        seq![Action::UpdatePixmap(window), Action::UpdateTexture(window)]
                    } else {
                        Seq::empty()
                    };
                    let mid = seq![Action::UpdatePos(window)];
                    assert(spec_render_count(pre) == 0) by {
                        assert(spec_render_count(Seq::<Action>::empty()) == 0);
                        if s[i].mapped && s[i].spec_pixmap_stale(geometry) {
                            let one = seq![Action::UpdatePixmap(window)];
                            assert(one.drop_last() =~= Seq::<Action>::empty());
                            assert(spec_render_count(one) == 0);
                            assert(pre.drop_last() =~= one);
                        }
                    }
                    assert(spec_render_count(mid) == 0) by {
                        assert(mid.drop_last() =~= Seq::<Action>::empty());
                    }
                    let rest = crate::event::spec_configure(s, window, geometry, above_sibling);
                    lemma_frame_emits_one_render(rest);
                    lemma_render_count_concat(pre, mid);
                    lemma_render_count_concat(pre + mid, spec_frame_actions(rest));
                },
                None => {
                    lemma_frame_emits_one_render(s);
                },
            }
        },
        Event::MapNotify { window } => {
            match spec_find(s, window) {
                Some(i) => {
                    lemma_refresh_render_free(window);
                    lemma_frame_emits_one_render(spec_map_notify(s, window));
                    lemma_render_count_concat(
                        spec_refresh_actions(window),
                        spec_frame_actions(spec_map_notify(s, window)),
                    );
                },
                None => {},
            }
        },
        Event::UnmapNotify { window } => {
            match spec_find(s, window) {
                Some(i) => {
                    lemma_frame_emits_one_render(spec_unmap_notify(s, window));
                },
                None => {},
            }
        },
        Event::ReparentNotify { window, parent, info } => {
            if parent == root_id {
                if spec_find(s, window) is None {
                    match info {
                        Some(wi) => {
                            if wi.mapped {
                                lemma_refresh_render_free(wi.id);
                            }
                        },
                        None => {},
                    }
                }
            } else {
                lemma_release_actions_render_free(spec_removed(s, window));
            }
        },
        Event::CirculateNotify { window, place_on_top } => {
            lemma_frame_emits_one_render(
                crate::event::spec_circulate(s, window, place_on_top),
            );
        },
        Event::Expose { count } => {
            if count == 0 {
                lemma_frame_emits_one_render(s);
            }
        },
        Event::PropertyNotify => {},
        Event::DamageNotify { drawable, damage } => {
            lemma_damage_render_count(s, drawable, damage, now, last, interval);
        },
    }
}

/// The startup pass over the initial window list emits exactly one frame.
pub proof fn lemma_initial_render_one_frame(s: Seq<Window>)
    ensures
        spec_render_count(spec_initial_actions(s)) == 1,
{
    lemma_initial_window_actions_render_free(s);
    assert(spec_initial_actions(s).drop_last() =~= spec_initial_window_actions(s));
    assert(spec_initial_actions(s).last() == Action::Render);
}

/// The per-window part of the startup pass emits no frame.
proof fn lemma_initial_window_actions_render_free(s: Seq<Window>)
    ensures
        spec_render_count(spec_initial_window_actions(s)) == 0,
    decreases s.len(),
{
    if s.len() > 0 {
        lemma_initial_window_actions_render_free(s.drop_last());
        let tail: Seq<Action> = if s.last().mapped {
            spec_refresh_actions(s.last().id).push(Action::DrawWindow(s.last().id))
        } else {
            Seq::empty()
        };
        lemma_render_count_concat(spec_initial_window_actions(s.drop_last()), tail);
        assert(spec_render_count(tail) == 0) by {
            assert(spec_render_count(Seq::<Action>::empty()) == 0);
            if s.last().mapped {
                lemma_refresh_render_free(s.last().id);
                assert(tail.drop_last() =~= spec_refresh_actions(s.last().id));
            }
        }
    }
}

/// The frames a run of damage events for one window emits through the
/// dispatcher, handling one event per arrival time, in order.
pub open spec fn spec_damage_burst_renders(
    s: Seq<Window>,
    last: u64,
    interval: u64,
    root_id: u32,
    drawable: u32,
    damage: u32,
    times: Seq<u64>,
) -> nat
    decreases times.len(),
{
    if times.len() == 0 {
        0
    } else {
        let (s2, last2, acts) = spec_step(
            s,
            last,
            interval,
            root_id,
            Event::DamageNotify { drawable, damage },
            times[0],
        );
        spec_render_count(acts) + spec_damage_burst_renders(
            s2,
            last2,
            interval,
            root_id,
            drawable,
            damage,
            times.drop_first(),
        )
    }
}

/// Handling damage events emits frames exactly as the rate-limiter model
/// counts them: the dispatcher adds no frame of its own.
proof fn lemma_burst_matches_rate_fold(
    s: Seq<Window>,
    last: u64,
    interval: u64,
    root_id: u32,
    drawable: u32,
    damage: u32,
    times: Seq<u64>,
)
    ensures
        spec_damage_burst_renders(s, last, interval, root_id, drawable, damage, times)
            == render_count(times, last, interval),
    decreases times.len(),
{
    if times.len() > 0 {
        lemma_damage_render_count(s, drawable, damage, times[0], last, interval);
        let (rendered, last2) = spec_rate_step(last, times[0], interval);
        lemma_burst_matches_rate_fold(
            s,
            last2,
            interval,
            root_id,
            drawable,
            damage,
            times.drop_first(),
        );
    }
}

/// The dispatcher cannot be made to emit frames faster than the refresh
/// interval: a burst of damage events whose arrival times all lie within
/// a window `[lo, hi]` emits at most `1 + (hi - lo) / interval` frames,
/// whatever the pacing state was when the burst began.
pub proof fn lemma_dispatcher_rate_limit(
    s: Seq<Window>,
    last: u64,
    interval: u64,
    root_id: u32,
    drawable: u32,
    damage: u32,
    times: Seq<u64>,
    lo: u64,
    hi: u64,
)
    requires
        interval >= 1,
        lo <= hi,
        forall|i: int| 0 <= i < times.len() ==> lo <= #[trigger] times[i] <= hi,
    ensures
        spec_damage_burst_renders(s, last, interval, root_id, drawable, damage, times) <= 1 + (
        hi - lo) / (interval as int),
{
    lemma_burst_matches_rate_fold(s, last, interval, root_id, drawable, damage, times);
    lemma_damage_rate_limit(times, last, lo, hi, interval);
}

/// Reparent away from the root removes every record of the window, and
/// doing it again changes nothing.
pub proof fn lemma_reparent_away_idempotent(
    s: Seq<Window>,
    root_id: u32,
    window: u32,
    parent: u32,
)
    requires
        parent != root_id,
    ensures
        !has_id(spec_reparent(s, root_id, window, parent, None), window),
        spec_reparent(
            spec_reparent(s, root_id, window, parent, None),
            root_id,
            window,
            parent,
            None,
        ) == spec_reparent(s, root_id, window, parent, None),
{
    lemma_remove_id_no_id(s, window);
    lemma_remove_id_noop(spec_remove_id(s, window), window);
}

} // verus!
