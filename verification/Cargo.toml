[package]
name = "tetris"
version = "0.1.0"
edition = "2021"
publish = false

[dependencies]
array2d = "0.2"
rand = { version = "0.8", features = ["small_rng"] }
serde = { version = "1", features = ["derive"] }
bincode = "1"
toml = "0.5"
lazy_static = "1"
itertools = "0.10"
sdl2 = { version = "0.34", features = ["image", "ttf"] }
