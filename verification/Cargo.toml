[package]
name = "airjump"
version = "0.1.0"
edition = "2021"
publish = false

[dependencies]
fnv = "1"
fps_clock = "*"
glium = "*"
rodio = "*"
serde = { version = "1", features = ["derive"] }
svgparser = "*"
toml = "*"
vecmath = "*"
