[package]
name = "latch"
version = "0.1.0"
edition = "2021"
publish = false

[dependencies]
rust_decimal = { version = "1", features = ["serde"] }
chrono = { version = "0.4", features = ["serde"] }
fastrand = "2"
xxhash-rust = { version = "0.8", features = ["xxh3"] }
serde = { version = "1", features = ["derive"] }
serde_json = "1"
tokio = { version = "1", features = ["macros", "rt-multi-thread", "time", "net"] }
axum = "0.7"
reqwest = { version = "0.12", default-features = false, features = ["json"] }
dashmap = "6"
uuid = { version = "1", features = ["v4"] }
async-trait = "0.1"
toml = "0.8"
