[package]
name = "pixelflut_pong"
version = "0.1.0"
edition = "2021"
publish = false

[dependencies]
async-trait = "0.1"
atomic_float = "0.1"
clap = { version = "3.2", features = ["derive"] }
image = { version = "0.24", default-features = false, features = ["png"] }
rand = "0.8"
rusttype = "0.9"
tokio = { version = "1", features = ["io-util", "macros", "net", "rt-multi-thread", "sync", "time"] }
