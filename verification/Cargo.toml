[package]
name = "hibernation"
version = "0.1.0"
edition = "2021"
publish = false

[dependencies]
sha2 = "*"
zstd = "*"
harmonia-store-core = "=0.0.0-alpha.0"
dashmap = "*"
uuid = { version = "*", features = ["v4", "v7", "serde"] }
serde = { version = "*", features = ["derive"] }
tokio = { version = "*", features = ["rt-multi-thread", "macros", "io-util", "sync", "time"] }
tokio-util = { version = "*", features = ["io"] }
futures-util = "*"
url = "*"
http = "*"
chrono = "*"
tracing = "*"
axum = "*"
reqwest = { version = "*", default-features = false }
clap = { version = "*", features = ["derive"] }
figment = { version = "*", features = ["env"] }
schemars = "*"
governor = "*"
