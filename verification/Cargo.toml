[package]
name = "itsm-manager"
version = "0.1.0"
edition = "2021"
publish = false

[dependencies]
serde = { version = "1", features = ["derive"] }
serde_json = "1"
base64 = "0.22"
reqwest = { version = "0.12", default-features = false, features = ["json", "multipart", "rustls-tls"] }
tokio = { version = "1", features = ["macros", "rt-multi-thread", "net", "time"] }
axum = "0.8"
rmcp = { version = "2.2", features = ["server", "transport-streamable-http-server"] }
keyring = "3"
