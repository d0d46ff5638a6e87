[package]
name = "chorus"
version = "0.1.0"
edition = "2021"
publish = false

[dependencies]
anyhow = "=1.0.104"
arc-swap = "=1.9.3"
async-stream = "=0.3.6"
async-trait = "=0.1.92"
bytes = "=1.12.1"
clap = { version = "=4.6.7", features = ["derive", "env"] }
crc32c = "=0.6.9"
futures = "=0.3.34"
google-cloud-auth = "=1.18.0"
googleapis-tonic-google-storage-v2 = "=0.43.0"
hdrhistogram = "=7.6.0"
prost = "=0.14.4"
prost-types = "=0.14.4"
reqwest = { version = "=0.13.5", features = ["json"] }
serde = { version = "=1.0.229", features = ["derive"] }
serde_json = "=1.0.154"
sha2 = "=0.10.9"
thiserror = "=2.0.21"
tokio = { version = "=1.54.1", features = ["full"] }
tokio-stream = "=0.1.19"
tonic = { version = "=0.14.9", features = ["tls-aws-lc", "tls-webpki-roots"] }
tracing = "=0.1.44"
tracing-subscriber = { version = "=0.3.23", features = ["env-filter"] }
walrus-rust = "=0.2.0"
