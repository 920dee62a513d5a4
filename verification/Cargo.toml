[package]
name = "airdrop"
version = "0.1.0"
edition = "2021"
publish = false

[dependencies]
uuid = { version = "*", features = ["v4"] }
anyhow = "*"
clap = { version = "*", features = ["derive"] }
quinn = "*"
rcgen = "*"
rustls = { version = "*", default-features = false, features = ["ring", "std"] }
socket2 = "*"
tokio = { version = "*", features = ["full"] }
tracing = "*"
tracing-subscriber = { version = "*", features = ["env-filter"] }
bincode = "1"
