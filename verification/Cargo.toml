[package]
name = "patchify"
version = "0.1.0"
edition = "2021"
publish = false

[dependencies]
flatbuffers = "*"
anyhow = "*"
clap = { version = "4", features = ["derive"] }
mimalloc = "*"
quinn = "0.11"
rcgen = { version = "0.14", default-features = false, features = ["crypto", "pem", "ring"] }
rustls = { version = "0.23", default-features = false, features = ["ring", "std", "logging", "tls12"] }
serde = { version = "1", features = ["derive"] }
serde_json = "1"
thiserror = "2"
tokio = { version = "1", features = ["full"] }
tracing = "*"
tracing-subscriber = "*"
