//! End-to-end scenarios: a small window tree driven through the
//! dispatcher, checking lists, emitted operations and frame pacing.
use compositor::event::{handle_event, initial_render, Action, Event};
use compositor::state::State;
use compositor::window::{ConfigureInfo, Window, WindowInfo};

fn mk_info(id: u32, mapped: bool) -> WindowInfo {
    WindowInfo {
        id,
        x: 10,
        y: 20,
        width: 300,
        height: 200,
        border_width: 2,
        mapped,
        override_redirect: false,
        alpha: false,
    }
}

fn mk_root() -> WindowInfo {
    WindowInfo {
        id: 1,
        x: 0,
        y: 0,
        width: 1366,
        height: 768,
        border_width: 0,
        mapped: true,
        override_redirect: false,
        alpha: false,
    }
}

/// A state whose root has two mapped children A (bottom) and B (top).
fn startup_state() -> State {
    let mut state = State::init(&mk_root(), 17);
    // children queried top to bottom: B first, then A
    let infos = vec![Some(mk_info(3, true)), Some(mk_info(2, true))];
    state.windows = Window::fetch_windows(&infos);
    state
}

fn ids(state: &State) -> Vec<u32> {
    state.windows.iter().map(|w| w.id).collect()
}

fn render_count(actions: &[Action]) -> usize {
    actions.iter().filter(|a| matches!(a, Action::Render)).count()
}

#[test]
fn startup_two_mapped_children() {
    let state = startup_state();
    // bottom-to-top list: A (id 2) below B (id 3)
    assert_eq!(ids(&state), vec![2, 3]);
    let actions = initial_render(&state);
    assert_eq!(
        actions,
        vec![
            Action::InitWindow(2),
            Action::UpdatePos(2),
            Action::UpdatePixmap(2),
            Action::UpdateTexture(2),
            Action::DrawWindow(2),
            Action::InitWindow(3),
            Action::UpdatePos(3),
            Action::UpdatePixmap(3),
            Action::UpdateTexture(3),
            Action::DrawWindow(3),
            Action::Render,
        ]
    );
    assert_eq!(render_count(&actions), 1);
}

#[test]
fn create_unmapped_then_map() {
    let mut state = startup_state();
    let actions = handle_event(
        &mut state,
        &Event::CreateNotify { info: Some(mk_info(4, false)) },
        0,
    );
    assert_eq!(ids(&state), vec![2, 3, 4]);
    // C is not mapped yet: no GPU initialisation, no draw of C
    assert_eq!(
        actions,
        vec![Action::DrawWindow(2), Action::DrawWindow(3), Action::Render]
    );

    let map_actions = handle_event(&mut state, &Event::MapNotify { window: 4 }, 0);
    assert!(state.windows[2].mapped);
    assert_eq!(
        map_actions,
        vec![
            Action::InitWindow(4),
            Action::UpdatePos(4),
            Action::UpdatePixmap(4),
            Action::UpdateTexture(4),
            Action::DrawWindow(2),
            Action::DrawWindow(3),
            Action::DrawWindow(4),
            Action::Render,
        ]
    );
    assert_eq!(render_count(&map_actions), 1);
}

#[test]
fn configure_restacks_above_sibling() {
    let mut state = startup_state();
    handle_event(&mut state, &Event::CreateNotify { info: Some(mk_info(4, false)) }, 0);
    handle_event(&mut state, &Event::MapNotify { window: 4 }, 0);
    // stack B (id 3) immediately above C (id 4): [A, C, B]
    let same_geometry = ConfigureInfo {
        x: 10,
        y: 20,
        width: 300,
        height: 200,
        border_width: 2,
        override_redirect: false,
    };
    let actions = handle_event(
        &mut state,
        &Event::ConfigureNotify { window: 3, geometry: same_geometry, above_sibling: 4 },
        0,
    );
    assert_eq!(ids(&state), vec![2, 4, 3]);
    // geometry unchanged: no pixmap refresh, just a quad re-upload
    assert_eq!(actions[0], Action::UpdatePos(3));
    assert_eq!(render_count(&actions), 1);
}

#[test]
fn configure_with_resize_refreshes_pixmap() {
    let mut state = startup_state();
    let grown = ConfigureInfo {
        x: 10,
        y: 20,
        width: 500,
        height: 200,
        border_width: 2,
        override_redirect: false,
    };
    let actions = handle_event(
        &mut state,
        &Event::ConfigureNotify { window: 2, geometry: grown, above_sibling: 0 },
        0,
    );
    assert_eq!(actions[0], Action::UpdatePixmap(2));
    assert_eq!(actions[1], Action::UpdateTexture(2));
    assert_eq!(actions[2], Action::UpdatePos(2));
    assert_eq!(state.windows[1].width, 500);
    // above_sibling NONE puts the window on top
    assert_eq!(ids(&state), vec![3, 2]);
}

#[test]
fn damage_burst_is_rate_limited() {
    let mut state = startup_state();
    state.last_render = 0;
    let mut renders = 0;
    for k in 0..100u64 {
        // 100 damage events within 10 ms, starting at t = 100 ms
        let now = 100 + k / 10;
        let actions = handle_event(
            &mut state,
            &Event::DamageNotify { drawable: 2, damage: 7 },
            now,
        );
        renders += render_count(&actions);
    }
    // refresh interval 17 ms: at most one frame for the whole burst
    assert_eq!(renders, 1);
    assert_eq!(state.last_render, 100);
}

#[test]
fn damage_always_subtracts_and_rebinds() {
    let mut state = startup_state();
    state.last_render = 90;
    let actions = handle_event(
        &mut state,
        &Event::DamageNotify { drawable: 3, damage: 9 },
        100,
    );
    // too soon for a frame, but the damage region is subtracted and the
    // texture rebound
    assert_eq!(
        actions,
        vec![Action::SubtractDamage(9), Action::UpdateTexture(3)]
    );
    assert_eq!(state.last_render, 90);
}

#[test]
fn unmap_then_destroy_releases_once() {
    let mut state = startup_state();
    handle_event(&mut state, &Event::CreateNotify { info: Some(mk_info(4, false)) }, 0);
    handle_event(&mut state, &Event::MapNotify { window: 4 }, 0);
    handle_event(
        &mut state,
        &Event::ConfigureNotify {
            window: 3,
            geometry: ConfigureInfo {
                x: 10,
                y: 20,
                width: 300,
                height: 200,
                border_width: 2,
                override_redirect: false,
            },
            above_sibling: 4,
        },
        0,
    );
    assert_eq!(ids(&state), vec![2, 4, 3]);

    // give A (id 2) live handles, as the backend would after the refresh
    let idx = state.windows.iter().position(|w| w.id == 2).unwrap();
    state.windows[idx].update_pixmap(11, 12, 13, 14);
    state.windows[idx].set_vbo(15);

    let unmap_actions = handle_event(&mut state, &Event::UnmapNotify { window: 2 }, 0);
    assert!(!state.windows[0].mapped);
    // A no longer drawn
    assert_eq!(
        unmap_actions,
        vec![Action::DrawWindow(4), Action::DrawWindow(3), Action::Render]
    );

    let destroy_actions = handle_event(&mut state, &Event::DestroyNotify { window: 2 }, 0);
    assert_eq!(ids(&state), vec![4, 3]);
    let releases: Vec<&Action> = destroy_actions
        .iter()
        .filter(|a| matches!(a, Action::Release(_)))
        .collect();
    assert_eq!(releases.len(), 1);
    match releases[0] {
        Action::Release(r) => {
            assert_eq!(r.pixmap, 11);
            assert_eq!(r.damage, 12);
            assert_eq!(r.glxpixmap, 13);
            assert_eq!(r.texture, 14);
            assert_eq!(r.vbo, 15);
        }
        _ => unreachable!(),
    }
}

#[test]
fn expose_coalesces_until_count_zero() {
    let mut state = startup_state();
    let pending = handle_event(&mut state, &Event::Expose { count: 3 }, 0);
    assert!(pending.is_empty());
    let last = handle_event(&mut state, &Event::Expose { count: 0 }, 0);
    assert_eq!(
        last,
        vec![Action::DrawWindow(2), Action::DrawWindow(3), Action::Render]
    );
    assert_eq!(render_count(&last), 1);
}

#[test]
fn property_notify_is_ignored() {
    let mut state = startup_state();
    let before = state.windows.clone();
    let actions = handle_event(&mut state, &Event::PropertyNotify, 0);
    assert!(actions.is_empty());
    assert_eq!(state.windows, before);
}

#[test]
fn create_with_failed_query_still_renders() {
    let mut state = startup_state();
    let actions = handle_event(&mut state, &Event::CreateNotify { info: None }, 0);
    assert_eq!(ids(&state), vec![2, 3]);
    assert_eq!(render_count(&actions), 1);
}

#[test]
fn map_unmap_map_round_trip_keeps_mapped() {
    let mut state = startup_state();
    handle_event(&mut state, &Event::UnmapNotify { window: 2 }, 0);
    assert!(!state.windows[0].mapped);
    let actions = handle_event(&mut state, &Event::MapNotify { window: 2 }, 0);
    assert!(state.windows[0].mapped);
    // a fresh refresh run is demanded again
    assert_eq!(actions[0], Action::InitWindow(2));
    assert_eq!(actions[2], Action::UpdatePixmap(2));
}

#[test]
fn reparent_round_trips() {
    let mut state = startup_state();
    // reparent an unknown window to root: record appears
    let actions = handle_event(
        &mut state,
        &Event::ReparentNotify { window: 9, parent: 1, info: Some(mk_info(9, false)) },
        0,
    );
    assert_eq!(ids(&state), vec![2, 3, 9]);
    // reparent carries no frame
    assert!(actions.is_empty());
    // the same event again changes nothing (the id is now known)
    handle_event(
        &mut state,
        &Event::ReparentNotify { window: 9, parent: 1, info: Some(mk_info(9, false)) },
        0,
    );
    assert_eq!(ids(&state), vec![2, 3, 9]);
    // reparent away removes the record; repeating it is harmless
    handle_event(&mut state, &Event::ReparentNotify { window: 9, parent: 5, info: None }, 0);
    assert_eq!(ids(&state), vec![2, 3]);
    handle_event(&mut state, &Event::ReparentNotify { window: 9, parent: 5, info: None }, 0);
    assert_eq!(ids(&state), vec![2, 3]);
}

#[test]
fn reparent_to_root_mapped_initialises_gpu() {
    let mut state = startup_state();
    let actions = handle_event(
        &mut state,
        &Event::ReparentNotify { window: 9, parent: 1, info: Some(mk_info(9, true)) },
        0,
    );
    assert_eq!(
        actions,
        vec![
            Action::InitWindow(9),
            Action::UpdatePos(9),
            Action::UpdatePixmap(9),
            Action::UpdateTexture(9),
        ]
    );
}

#[test]
fn create_destroy_returns_prior_list() {
    let mut state = startup_state();
    let before = state.windows.clone();
    handle_event(&mut state, &Event::CreateNotify { info: Some(mk_info(4, true)) }, 0);
    assert_eq!(state.windows.len(), 3);
    handle_event(&mut state, &Event::DestroyNotify { window: 4 }, 0);
    assert_eq!(state.windows, before);
}

#[test]
fn circulate_moves_to_top_and_bottom() {
    let mut state = startup_state();
    let actions = handle_event(
        &mut state,
        &Event::CirculateNotify { window: 2, place_on_top: true },
        0,
    );
    assert_eq!(ids(&state), vec![3, 2]);
    assert_eq!(render_count(&actions), 1);
    handle_event(&mut state, &Event::CirculateNotify { window: 2, place_on_top: false }, 0);
    assert_eq!(ids(&state), vec![2, 3]);
}
