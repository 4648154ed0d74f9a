[package]
name = "ragkit_bridge"
version = "0.1.0"
edition = "2021"
publish = false

[dependencies]
portpicker = "*"
serde_json = "*"
serde = { version = "*", features = ["derive"] }
reqwest = { version = "*", default-features = false, features = ["json", "stream"] }
tokio = { version = "*", features = ["rt-multi-thread", "macros", "time", "sync"] }
futures-util = "*"
