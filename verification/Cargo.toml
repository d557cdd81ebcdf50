[package]
name = "matmult"
version = "0.1.0"
edition = "2021"
publish = false

[dependencies]
futures = "=0.3.34"
reqwest = { version = "=0.13.5", default-features = false, features = ["json"] }
serde = { version = "=1.0.229", features = ["derive"] }
serde_json = "=1.0.151"
tokio = { version = "=1.53.2", features = ["macros", "rt-multi-thread"] }
warp = { version = "=0.4.3", default-features = false, features = ["server"] }
