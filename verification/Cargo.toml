[package]
name = "multi"
version = "0.1.0"
edition = "2021"
publish = false

[dependencies]
rand = "0.8"
serde = { version = "1", features = ["derive"] }
bincode = "1"
anyhow = "1"
rusqlite = { version = "0.29", features = ["bundled"] }
message-io = { version = "0.14", default-features = false, features = ["websocket"] }
rustop = "1"
tetra = { version = "0.6", default-features = false, features = ["font_ttf", "texture_png"] }
