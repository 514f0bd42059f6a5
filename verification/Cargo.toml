[package]
name = "layout_lib"
version = "0.1.0"
edition = "2021"
publish = false

[dependencies]
unicode-bidi = "0.3"
serde = { version = "1", features = ["derive"] }
quick-xml = { version = "*", features = ["serialize"] }
xkbcommon = { version = "*", default-features = false }
