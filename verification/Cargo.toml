[package]
name = "xenom_miner"
version = "0.1.0"
edition = "2021"
publish = false

[dependencies]
blake3 = "=1.8.7"
hex = "=0.4.3"
rand = "=0.8.8"
rayon = "=1.12.0"
num_cpus = "=1.17.0"
clap = { version = "=4.6.7", features = ["derive"] }
serde = { version = "=1.0.229", features = ["derive"] }
serde_json = "=1.0.154"
reqwest = { version = "=0.11.27", default-features = false, features = ["blocking", "json"] }
tiny_http = "=0.12.0"
parking_lot = "=0.12.5"
cudarc = { version = "=0.19.10", default-features = false, features = ["std", "driver", "nvrtc", "fallback-dynamic-loading", "cuda-12000"] }

[dev-dependencies]
num-bigint = "=0.4.8"
