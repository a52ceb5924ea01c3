[package]
name = "astra"
version = "0.1.0"
edition = "2021"
publish = false

[dependencies]
serde_json = "=1.0.151"
sha2 = "=0.11.0"
sha3 = "=0.12.0"
base64 = "=0.23.1"
regex = "=1.13.1"
tokio = { version = "=1.53.2", features = ["rt-multi-thread", "macros", "net", "time", "fs", "sync"] }
mlua = { version = "=0.12.2", features = ["lua54", "vendored", "async", "serialize", "send"] }
axum = "=0.8.9"
axum-extra = { version = "=0.12.6", features = ["cookie"] }
tower = "=0.5.3"
tower-http = { version = "=0.7.1", features = ["fs", "compression-gzip", "decompression-gzip"] }
clap = { version = "=4.6.7", features = ["derive"] }
dotenvy = "=0.15.7"
serde = { version = "=1.0.229", features = ["derive"] }
reqwest = { version = "=0.13.5", default-features = false, features = ["json"] }
time = "=0.3.55"
