[package]
name = "pathtracer"
version = "0.1.0"
edition = "2021"
publish = false

[dependencies]
image = "=0.25.10"
rayon = "=1.12.0"
ultraviolet = { version = "=0.10.0", features = ["f64"] }
viuer = "=0.11.0"
