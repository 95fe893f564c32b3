[package]
name = "notation_canvas"
version = "0.1.0"
edition = "2021"
publish = false

[dependencies]
ab_glyph = "*"
tiny-skia = "*"
rquickjs = { version = "*", features = ["macro", "loader"] }
clap = { version = "*", features = ["derive"] }
