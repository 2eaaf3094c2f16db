[package]
name = "binding_origins"
version = "0.1.0"
edition = "2021"
publish = false

[dependencies]
enumset = "1"
log = "0.4"
ovr_overlay = "0.0.0"
serde = { version = "1", features = ["derive"] }
serde_json = "1"
substring = "1.4.5"
