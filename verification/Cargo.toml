[package]
name = "rentaneko"
version = "0.1.0"
edition = "2021"
publish = false

[dependencies]
cap-std = "3"
nix = { version = "0.30", features = ["process", "signal"] }
serde = { version = "1", features = ["derive"] }
serde_json = "1"
tempfile = "3"
thiserror = "2"
tokio = { version = "1", features = ["macros", "rt", "process", "io-util", "time", "sync"] }
