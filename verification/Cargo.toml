[package]
name = "thumbor"
version = "0.1.0"
edition = "2021"
publish = false

[dependencies]
anyhow = "1"
axum = { version = "0.8", features = ["multipart"] }
base64 = "=0.22.1"
bytes = "=1.12.1"
image = { version = "=0.25.10", default-features = false, features = ["bmp", "exr", "ff", "gif", "hdr", "ico", "jpeg", "png", "pnm", "qoi", "tga", "tiff", "webp"] }
lru = "=0.19.0"
percent-encoding = "=2.3.2"
photon-rs = { version = "=0.3.3", default-features = false }
prost = "=0.13.5"
reqwest = { version = "0.12", default-features = false, features = ["charset", "http2", "rustls-tls"] }
serde = { version = "1", features = ["derive"] }
tokio = { version = "1", features = ["fs", "macros", "net", "rt-multi-thread", "sync"] }
tower = "0.5"
tower-http = { version = "0.6", features = ["add-extension", "cors", "trace"] }
tracing = "0.1"
tracing-appender = "0.2"
tracing-subscriber = { version = "0.3", features = ["env-filter"] }
uuid = { version = "=1.29.0", features = ["v4"] }
