[package]
name = "maia_sdr"
version = "0.1.0"
edition = "2021"
publish = false

[dependencies]
anyhow = "*"
chrono = "*"
clap = { version = "*", features = ["derive"] }
maia-pac = "*"
pm-remez = "*"
serde = { version = "*", features = ["derive"] }
serde_json = "*"
tokio = { version = "*", features = ["fs", "rt-multi-thread", "macros", "io-util", "time"] }
wasm-bindgen = "*"
