[package]
name = "jellyfin_tui"
version = "0.1.0"
edition = "2021"
publish = false

[dependencies]
log = "0.4"
ratatui = { version = "0.29", default-features = false }
ratatui-image = { version = "8", default-features = false }
serde = { version = "1", features = ["derive"] }
serde_json = "1"
tokio = { version = "1", features = ["time"] }
