[package]
name = "falcon_protocol"
version = "0.1.0"
edition = "2021"
publish = false

[dependencies]
confy = "=2.0.0"
mc_chat = { version = "=0.3.0", features = ["serde"] }
once_cell = "=1.21.4"
serde = { version = "=1.0.229", features = ["derive"] }
serde_json = "=1.0.151"
tokio = { version = "=1.53.2", features = ["net"] }
