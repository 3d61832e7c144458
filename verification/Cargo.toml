[package]
name = "rssh_async"
version = "0.1.0"
edition = "2021"
publish = false

[dependencies]
anyhow = "1"
chrono = "0.4"
clap = { version = "4", features = ["derive"] }
fern = "0.6"
log = "0.4"
regex = "1"
serde = { version = "1", features = ["derive"] }
serde_derive = "1"
serde_json = "1"
ssh2 = "0.9"
tokio = { version = "1", features = ["full"] }
tokio-stream = "0.1"
