[package]
name = "modality_can"
version = "0.1.0"
edition = "2021"
publish = false

[dependencies]
sha2 = "*"
can-dbc = "*"
bitvec = "*"
socketcan = { version = "*", features = ["tokio"] }
anyhow = "*"
clap = { version = "*", features = ["derive"] }
serde = { version = "*", features = ["derive"] }
toml = "*"
tracing = "*"
tracing-subscriber = { version = "*", features = ["env-filter"] }
auxon-sdk = { version = "*", features = ["modality"] }
tokio = { version = "*", features = ["full"] }
tokio-util = "*"
futures-util = "*"
