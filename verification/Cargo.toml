[package]
name = "video_editor"
version = "0.1.0"
edition = "2021"
publish = false

[dependencies]
serde = { version = "=1.0.229", features = ["derive"] }
serde_json = "=1.0.154"
egui = "=0.37.0"
image = { version = "=0.25.10", default-features = false, features = ["png"] }
zip = { version = "=9.2.2", default-features = false, features = ["deflate"] }
tokio = { version = "=1.54.1", features = ["rt-multi-thread", "process", "macros", "sync", "io-util"] }
crossbeam-channel = "=0.5.17"
