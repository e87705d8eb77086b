//! Unit tests for the window record, the stacking operations, and the
//! root-pixmap lookup.
use compositor::stack::{find_window, remove_window, restack_window};
use compositor::state::{get_root_pixmap, PropertyReply, State};
use compositor::window::{
    has_alpha, ConfigureInfo, PictFormat, Window, WindowInfo,
};

fn plain_info(id: u32) -> WindowInfo {
    WindowInfo {
        id,
        x: -5,
        y: 7,
        width: 640,
        height: 480,
        border_width: 1,
        mapped: false,
        override_redirect: true,
        alpha: true,
    }
}

fn plain_window(id: u32) -> Window {
    Window::new(&plain_info(id))
}

#[test]
fn window_new_copies_info_and_leaves_handles_unset() {
    let w = plain_window(42);
    assert_eq!(w.id, 42);
    assert_eq!(w.x, -5);
    assert_eq!(w.y, 7);
    assert_eq!(w.width, 640);
    assert_eq!(w.height, 480);
    assert_eq!(w.border_width, 1);
    assert!(!w.mapped);
    assert!(w.override_redirect);
    assert!(w.alpha);
    assert_eq!(w.pixmap, 0);
    assert_eq!(w.damage, 0);
    assert_eq!(w.context.glxpixmap, 0);
    assert_eq!(w.context.texture, 0);
    assert_eq!(w.context.vbo, 0);
}

#[test]
fn update_using_event_overwrites_geometry() {
    let mut w = plain_window(42);
    w.update_using_event(&ConfigureInfo {
        x: 100,
        y: -3,
        width: 11,
        height: 12,
        border_width: 3,
        override_redirect: false,
    });
    assert_eq!(w.x, 100);
    assert_eq!(w.y, -3);
    assert_eq!(w.width, 11);
    assert_eq!(w.height, 12);
    assert_eq!(w.border_width, 3);
    assert!(!w.override_redirect);
    // identity and handles untouched
    assert_eq!(w.id, 42);
    assert_eq!(w.pixmap, 0);
}

#[test]
fn update_geometry_overwrites_position_and_extents() {
    let mut w = plain_window(6);
    w.update_geometry(40, -9, 800, 600, 5);
    assert_eq!(w.x, 40);
    assert_eq!(w.y, -9);
    assert_eq!(w.width, 800);
    assert_eq!(w.height, 600);
    assert_eq!(w.border_width, 5);
    assert!(w.override_redirect);
}

#[test]
fn update_pixmap_swaps_handles_and_returns_old() {
    let mut w = plain_window(8);
    let first = w.update_pixmap(1, 2, 3, 4);
    assert_eq!(first, (0, 0, 0));
    let prev = w.update_pixmap(5, 6, 7, 8);
    // the caller gets back exactly what it must release
    assert_eq!(prev, (2, 3, 4));
    assert_eq!(w.pixmap, 5);
    assert_eq!(w.damage, 6);
    assert_eq!(w.context.glxpixmap, 7);
    assert_eq!(w.context.texture, 8);
}

#[test]
fn set_vbo_returns_replaced_buffer() {
    let mut w = plain_window(8);
    assert_eq!(w.set_vbo(31), 0);
    assert_eq!(w.set_vbo(32), 31);
    assert_eq!(w.context.vbo, 32);
}

#[test]
fn fetch_windows_reverses_and_skips_failures() {
    let infos = vec![
        Some(plain_info(30)),
        None,
        Some(plain_info(20)),
        Some(plain_info(10)),
    ];
    let windows = Window::fetch_windows(&infos);
    let ids: Vec<u32> = windows.iter().map(|w| w.id).collect();
    // queried top to bottom, stored bottom to top
    assert_eq!(ids, vec![10, 20, 30]);
}

#[test]
fn find_window_returns_first_match() {
    let list = vec![plain_window(1), plain_window(2), plain_window(3)];
    assert_eq!(find_window(&list, 2), Some(1));
    assert_eq!(find_window(&list, 9), None);
    assert_eq!(find_window(&Vec::new(), 1), None);
}

#[test]
fn remove_window_returns_removed_records() {
    let mut list = vec![plain_window(1), plain_window(2), plain_window(1)];
    let removed = remove_window(&mut list, 1);
    assert_eq!(list.len(), 1);
    assert_eq!(list[0].id, 2);
    assert_eq!(removed.len(), 2);
    assert_eq!(removed[0].id, 1);
}

#[test]
fn restack_inserts_immediately_above_sibling() {
    let mut list = vec![plain_window(1), plain_window(2), plain_window(3)];
    restack_window(3, 1, &mut list);
    let ids: Vec<u32> = list.iter().map(|w| w.id).collect();
    assert_eq!(ids, vec![1, 3, 2]);
}

#[test]
fn restack_none_sentinel_moves_to_top() {
    let mut list = vec![plain_window(1), plain_window(2), plain_window(3)];
    restack_window(1, 0, &mut list);
    let ids: Vec<u32> = list.iter().map(|w| w.id).collect();
    assert_eq!(ids, vec![2, 3, 1]);
}

#[test]
fn restack_unknown_sibling_appends_on_top() {
    let mut list = vec![plain_window(1), plain_window(2), plain_window(3)];
    restack_window(1, 99, &mut list);
    let ids: Vec<u32> = list.iter().map(|w| w.id).collect();
    assert_eq!(ids, vec![2, 3, 1]);
}

#[test]
fn restack_unknown_window_is_a_no_op() {
    let mut list = vec![plain_window(1), plain_window(2)];
    restack_window(9, 1, &mut list);
    let ids: Vec<u32> = list.iter().map(|w| w.id).collect();
    assert_eq!(ids, vec![1, 2]);
}

#[test]
fn state_init_holds_root_and_empty_list() {
    let state = State::init(&plain_info(77), 17);
    assert_eq!(state.root.id, 77);
    assert!(state.windows.is_empty());
    assert_eq!(state.last_render, 0);
    assert_eq!(state.refresh_interval, 17);
}

#[test]
fn update_root_pixmap_installs_or_clears() {
    let mut state = State::init(&plain_info(77), 17);
    state.update_root_pixmap(Some(123));
    assert_eq!(state.root.pixmap, 123);
    state.update_root_pixmap(None);
    assert_eq!(state.root.pixmap, 0);
}

#[test]
fn root_pixmap_takes_first_matching_reply() {
    const PIXMAP_ATOM: u32 = 20;
    let replies = vec![
        None,
        Some(PropertyReply { type_atom: 6, format: 32, length: 1, value: 111 }),
        Some(PropertyReply { type_atom: 20, format: 16, length: 1, value: 222 }),
        Some(PropertyReply { type_atom: 20, format: 32, length: 1, value: 333 }),
        Some(PropertyReply { type_atom: 20, format: 32, length: 1, value: 444 }),
    ];
    assert_eq!(get_root_pixmap(&replies, PIXMAP_ATOM), Some(333));
}

#[test]
fn root_pixmap_rejects_wrong_shape_replies() {
    const PIXMAP_ATOM: u32 = 20;
    let replies = vec![
        Some(PropertyReply { type_atom: 20, format: 32, length: 2, value: 1 }),
        Some(PropertyReply { type_atom: 20, format: 8, length: 1, value: 2 }),
        None,
    ];
    assert_eq!(get_root_pixmap(&replies, PIXMAP_ATOM), None);
}

#[test]
fn has_alpha_first_matching_format_decides() {
    let formats = vec![
        PictFormat { colormap: 5, direct: false, alpha_mask: 0xff },
        PictFormat { colormap: 7, direct: true, alpha_mask: 0xff },
        PictFormat { colormap: 7, direct: true, alpha_mask: 0 },
    ];
    // first entry for colormap 7 decides: direct with nonzero mask
    assert!(has_alpha(&formats, 7));
    // first entry for colormap 5 is not direct, later entries don't matter
    assert!(!has_alpha(&formats, 5));
    assert!(!has_alpha(&formats, 9));
}

#[test]
fn has_alpha_rejects_zero_mask() {
    let formats = vec![PictFormat { colormap: 3, direct: true, alpha_mask: 0 }];
    assert!(!has_alpha(&formats, 3));
}
