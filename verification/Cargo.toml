[package]
name = "devptp"
version = "0.1.0"
edition = "2021"
publish = false

[dependencies]
anyhow = "1"
clap = { version = "4", features = ["derive"] }
derive_more = { version = "2", features = ["from"] }
interprocess = { version = "2", features = ["tokio"] }
iroh = "*"
iroh-ping = "*"
iroh-tickets = "*"
serde = { version = "1", features = ["derive"] }
serde_json = "1"
tokio = { version = "1", features = ["full"] }
toml = "*"
tracing-subscriber = "*"
