[package]
name = "versi"
version = "0.1.0"
edition = "2021"
publish = false

[dependencies]
dirs = "=7.0.0"
tokio = { version = "=1.53.2", features = ["macros", "process", "rt", "time"] }
reqwest = { version = "=0.13.5", default-features = false, features = ["json"] }
serde = { version = "=1.0.229", features = ["derive"] }
serde_json = "=1.0.151"
which = "=8.0.6"
