//! Unit tests for the startup decisions, the quad computation and the
//! frame pacing predicate.
use compositor::backend::{
    formatted_win_data, glx_pixmap_attribs, quad_indices, GLX_FRONT_LEFT_EXT,
    GLX_TEXTURE_2D_EXT, GLX_TEXTURE_FORMAT_EXT, GLX_TEXTURE_FORMAT_RGBA_EXT,
    GLX_TEXTURE_TARGET_EXT,
};
use compositor::frame::should_render;
use compositor::setup::{
    check_context_result, check_glx_extension, cm_atom_name, glx_dec_version,
    verify_extensions, ContextError, GlxSetupError,
};
use compositor::window::{Window, WindowInfo};

fn quad_window() -> Window {
    Window::new(&WindowInfo {
        id: 5,
        x: 100,
        y: 50,
        width: 300,
        height: 200,
        border_width: 4,
        mapped: true,
        override_redirect: false,
        alpha: false,
    })
}

#[test]
fn quad_vertices_exact_values() {
    let w = quad_window();
    // border counts twice: right = 100 + 300 + 8, bottom = 50 + 200 + 8
    assert_eq!(
        formatted_win_data(&w),
        vec![
            100, 50, 0, 0, //
            408, 50, 1, 0, //
            100, 258, 0, 1, //
            408, 258, 1, 1,
        ]
    );
}

#[test]
fn quad_is_idempotent_for_unchanged_geometry() {
    let w = quad_window();
    assert_eq!(formatted_win_data(&w), formatted_win_data(&w));
}

#[test]
fn quad_handles_negative_positions_and_extremes() {
    let mut w = quad_window();
    w.x = -32768;
    w.y = -32768;
    w.width = 65535;
    w.height = 65535;
    w.border_width = 65535;
    let quad = formatted_win_data(&w);
    assert_eq!(quad[0], -32768);
    assert_eq!(quad[4], -32768 + 65535 + 2 * 65535);
    assert_eq!(quad[9], -32768 + 65535 + 2 * 65535);
}

#[test]
fn quad_index_pattern() {
    assert_eq!(quad_indices(), vec![0, 1, 2, 1, 2, 3]);
}

#[test]
fn pixmap_attribs_match_extension_constants() {
    assert_eq!(GLX_TEXTURE_TARGET_EXT, 0x20D6);
    assert_eq!(GLX_TEXTURE_2D_EXT, 0x20DC);
    assert_eq!(GLX_TEXTURE_FORMAT_EXT, 0x20D5);
    assert_eq!(GLX_TEXTURE_FORMAT_RGBA_EXT, 0x20DA);
    assert_eq!(GLX_FRONT_LEFT_EXT, 0x20DE);
    assert_eq!(
        glx_pixmap_attribs(),
        vec![0x20D6, 0x20DC, 0x20D5, 0x20DA, 0]
    );
}

#[test]
fn extension_lookup_finds_whole_words_only() {
    let exts = b"GLX_ARB_create_context GLX_EXT_texture_from_pixmap GLX_ARB_multisample";
    assert!(check_glx_extension(exts, b"GLX_ARB_create_context"));
    assert!(check_glx_extension(exts, b"GLX_EXT_texture_from_pixmap"));
    assert!(check_glx_extension(exts, b"GLX_ARB_multisample"));
    // substrings and extensions of names must not match
    assert!(!check_glx_extension(exts, b"GLX_ARB_create"));
    assert!(!check_glx_extension(exts, b"GLX_ARB_create_context_profile"));
    assert!(!check_glx_extension(exts, b"texture_from_pixmap"));
    assert!(!check_glx_extension(b"", b"GLX_ARB_create_context"));
}

#[test]
fn extension_lookup_at_both_ends() {
    let exts = b"first_ext middle_ext last_ext";
    assert!(check_glx_extension(exts, b"first_ext"));
    assert!(check_glx_extension(exts, b"last_ext"));
    assert!(check_glx_extension(b"only_ext", b"only_ext"));
    assert!(!check_glx_extension(b"only_ext", b"only"));
}

#[test]
fn glx_version_decimal_form() {
    assert_eq!(glx_dec_version(1, 3), 13);
    assert_eq!(glx_dec_version(1, 4), 14);
    assert_eq!(glx_dec_version(0, 9), 9);
}

#[test]
fn glx_requirements_in_check_order() {
    assert_eq!(verify_extensions(14, true, true), Ok(()));
    assert_eq!(verify_extensions(12, true, true), Err(GlxSetupError::Version));
    assert_eq!(
        verify_extensions(13, false, true),
        Err(GlxSetupError::NoCreateContext)
    );
    assert_eq!(
        verify_extensions(13, true, false),
        Err(GlxSetupError::NoTextureFromPixmap)
    );
    // the version check comes first
    assert_eq!(verify_extensions(12, false, false), Err(GlxSetupError::Version));
}

#[test]
fn glx_error_messages() {
    assert_eq!(GlxSetupError::Version.message(), "glx-1.3 is not supported");
    assert_eq!(
        GlxSetupError::NoCreateContext.message(),
        "could not find GLX extension GLX_ARB_create_context"
    );
    assert_eq!(
        GlxSetupError::NoTextureFromPixmap.message(),
        "could not find GLX extension GLX_EXT_texture_from_pixmap"
    );
}

#[test]
fn context_result_classification() {
    assert_eq!(check_context_result(false, false, true), Ok(()));
    assert_eq!(
        check_context_result(true, false, true),
        Err(ContextError::Creation)
    );
    assert_eq!(
        check_context_result(false, true, true),
        Err(ContextError::Creation)
    );
    assert_eq!(
        check_context_result(false, false, false),
        Err(ContextError::Indirect)
    );
    assert_eq!(
        ContextError::Creation.message(),
        "error when creating gl-3.0 context"
    );
    assert_eq!(
        ContextError::Indirect.message(),
        "obtained indirect rendering context"
    );
}

#[test]
fn cm_atom_names_for_screens() {
    assert_eq!(cm_atom_name(0), b"_NET_WM_CM_S0".to_vec());
    assert_eq!(cm_atom_name(7), b"_NET_WM_CM_S7".to_vec());
    assert_eq!(cm_atom_name(10), b"_NET_WM_CM_S10".to_vec());
    assert_eq!(cm_atom_name(42), b"_NET_WM_CM_S42".to_vec());
    assert_eq!(cm_atom_name(100), b"_NET_WM_CM_S100".to_vec());
    assert_eq!(cm_atom_name(255), b"_NET_WM_CM_S255".to_vec());
}

#[test]
fn render_pacing_is_strictly_more_than_interval() {
    assert!(!should_render(17, 0, 17));
    assert!(should_render(18, 0, 17));
    assert!(!should_render(100, 90, 17));
    assert!(should_render(120, 90, 17));
    // a clock that runs backwards never triggers a frame
    assert!(!should_render(5, 10, 1));
}
