[package]
name = "ftrans"
version = "0.1.0"
edition = "2021"

[dependencies]
anyhow = "1"
clap = { version = "4", default-features = false, features = ["error-context", "help", "std", "usage"] }
iroh = { version = "*", default-features = false, features = ["tls-ring"] }
iroh-blobs = { version = "*", default-features = false, features = ["fs-store"] }
serde = { version = "1", features = ["derive"] }
serde_json = "1"
tokio = { version = "1", features = ["fs", "io-util", "macros", "net", "rt-multi-thread", "signal", "sync", "time"] }
walkdir = "2"
