[package]
name = "filmgrain"
version = "0.1.0"
edition = "2021"
publish = false

[dependencies]
image = { version = "0.25", default-features = false, features = ["jpeg", "exr"] }
rand = "0.9"
rayon = "1"
tracing = "0.1"
tracing-subscriber = "0.3"
