[package]
name = "rustfilm"
version = "0.1.0"
edition = "2021"
publish = false

[dependencies]
clap = "2"
float-cmp = "0.9"
num = "0.4"
plotters = { version = "0.3", default-features = false, features = ["bitmap_backend", "bitmap_encoder", "point_series"] }
rayon = "1"
ron = "0.8"
serde = { version = "1", features = ["derive"] }
x264 = "*"
