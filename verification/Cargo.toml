[package]
name = "event_store"
version = "0.1.0"
edition = "2021"
publish = false

[dependencies]
sha2 = "0.10"
rand = "0.8"
candid = "0.10"
serde = { version = "1", features = ["derive"] }
serde_bytes = "0.11"
serde_json = "1"
rmp-serde = "1"
ic-cdk = "0.18"
ic-cdk-timers = "0.12"
ic_principal = "*"
ic-stable-structures = "0.6"
ic-http-certification = "3"
querystring = "1"
