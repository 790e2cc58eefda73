[package]
name = "wan_switch"
version = "1.0.0"
edition = "2021"
publish = false

[dependencies]
anyhow = "1"
axum = "0.7"
regex = "1"
serde = { version = "1", features = ["derive"] }
serde_json = "1"
tokio = { version = "1", features = ["macros", "net", "rt-multi-thread", "sync"] }
