[package]
name = "halfcopy"
version = "0.1.0"
edition = "2021"
publish = false

[dependencies]
anyhow = "1"
async-walkdir = "2"
blake3 = { version = "=1.8.2", features = ["traits-preview"] }
chacha20poly1305 = "0.10"
futures-util = { version = "0.3", default-features = false, features = ["sink", "std"] }
hex = "0.4"
hkdf = "0.12"
iroh-base = { version = "0.92", default-features = false, features = ["key", "relay", "ticket"] }
postcard = { version = "1", features = ["use-std"] }
rand = "0.8"
serde = { version = "1", features = ["derive"] }
spake2 = { version = "0.4", features = ["std"] }
tokio = { version = "1", features = ["fs", "macros", "rt", "sync", "time"] }
tokio-tungstenite = { version = "0.27", features = ["rustls-tls-webpki-roots"] }
tracing = "0.1"
