//! Core of an X11 compositing engine: a verified model of the top-level
//! window list, the per-window GPU resource lifecycle, and the event-driven
//! render loop that keeps both consistent with the server's window tree.
//!
//! Everything that talks to the X server or to the GL driver lives outside
//! this crate; the library works on plain values (ids, geometry, handles)
//! and tells its caller exactly which backend operations to perform.
pub mod backend;
pub mod event;
pub mod frame;
pub mod laws;
pub mod setup;
pub mod stack;
pub mod state;
pub mod window;
