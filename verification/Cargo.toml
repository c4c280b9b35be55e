[package]
name = "passkey_ceremony"
version = "0.1.0"
edition = "2021"
publish = false

[dependencies]
webauthn-rs = { version = "*", features = ["danger-allow-state-serialisation"] }
serde_json = "*"
uuid = { version = "*", features = ["v4"] }
serde = { version = "*", features = ["derive"] }
axum = "*"
tokio = { version = "*", features = ["full"] }
tower-http = { version = "*", features = ["cors"] }
base64 = "*"
dotenv = "*"
tracing = "*"
tracing-subscriber = "*"
