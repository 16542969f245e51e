[package]
name = "rsnomadnet_core"
version = "0.1.0"
edition = "2021"

[dependencies]
anyhow = "*"
axum = { version = "*", features = ["ws"] }
bytes = "*"
clap = { version = "*", features = ["derive"] }
hex = "*"
lxmf-core = "*"
rmpv = "*"
rns-crypto = "*"
rusqlite = { version = "*", features = ["bundled"] }
serde = { version = "*", features = ["derive"] }
serde_json = "*"
serde_yaml = "*"
thiserror = "*"
tokio = { version = "*", features = ["full"] }
tower-http = { version = "*", features = ["trace"] }
tracing = "*"
tracing-subscriber = { version = "*", features = ["env-filter"] }
tvision-rs = "*"
unicode-segmentation = "*"
unicode-width = "*"
