[package]
name = "req_engine"
version = "0.1.0"
edition = "2021"
publish = false

[dependencies]
chrono = "0.4"
uuid = { version = "1", features = ["v4"] }
sha2 = "0.10"
hex = "0.4"
rand = "0.8"
serde = { version = "1", features = ["derive"] }
serde_json = "1"
thiserror = "2"
rusqlite = { version = "*", features = ["bundled"] }
axum = "0.8"
tokio = { version = "1", features = ["full"] }
tower-http = { version = "*", features = ["cors", "fs"] }
rmcp = { version = "*", features = ["server", "transport-io", "macros"] }
schemars = "*"
clap = { version = "4", features = ["derive", "env"] }
dirs = "*"
tracing = "0.1"
tracing-subscriber = { version = "0.3", features = ["env-filter"] }
tao = "*"
wry = "*"
tray-icon = "*"
rfd = "*"
