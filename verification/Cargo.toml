[package]
name = "q_term"
version = "0.1.0"
edition = "2021"
publish = false

[dependencies]
anstyle-parse = "0.2"
bevy = { version = "0.17", default-features = false, features = ["bevy_ui", "bevy_text", "bevy_picking", "bevy_ui_picking_backend", "default_font"] }
itertools = "0.14"
tiny_bail = "*"
