[package]
name = "sinrana"
version = "0.1.0"
edition = "2021"
publish = false

[dependencies]
argon2 = "0.5"
rand = "0.10"
rcgen = { version = "0.14", default-features = false, features = ["crypto", "ring"] }
serde_json = "1"
serde = { version = "1", features = ["derive"] }
rmp-serde = "1"
toml = "*"
anyhow = "1"
thiserror = "2"
tokio = { version = "1", features = ["rt-multi-thread", "macros", "net", "io-util", "io-std", "sync", "time"] }
quinn = { version = "0.11", default-features = false, features = ["runtime-tokio", "rustls-ring"] }
rustls = { version = "0.23", default-features = false, features = ["ring", "std"] }
axum = { version = "0.8", features = ["ws"] }
futures-util = "0.3"
clap = { version = "4", features = ["derive"] }
rusqlite = { version = "*", features = ["bundled"] }
tracing = "0.1"
tracing-subscriber = { version = "0.3", features = ["env-filter"] }
