[package]
name = "make_movie"
version = "0.1.0"
edition = "2021"
publish = false

[dependencies]
serde = { version = "=1.0.229", features = ["derive"] }
serde_json = "=1.0.154"
toml = "=0.8.23"
anyhow = "=1.0.104"
sha2 = "=0.10.9"
wasmtime = { version = "=46.0.3", default-features = false, features = ["std", "runtime", "cranelift", "wat"] }
reqwest = { version = "=0.12.28", default-features = false, features = ["blocking", "json", "rustls-tls"] }
image = { version = "=0.25.10", default-features = false, features = ["png", "jpeg"] }
ab_glyph = "=0.2.32"
pollster = "=0.4.0"
which = "=8.0.6"
clap = { version = "=4.6.7", features = ["derive"] }
wgpu = "=25.0.2"
flate2 = "=1.1.10"
tar = "0.4"
