[package]
name = "compositor"
version = "0.1.0"
edition = "2021"
publish = false

[dependencies]
gl = "0.14"
x11 = { version = "2", features = ["xlib", "glx"] }
xcb = { version = "0.9", features = ["composite", "damage", "randr", "shape", "render", "xlib_xcb"] }
