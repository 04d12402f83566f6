[package]
name = "drill_core"
version = "0.1.0"
edition = "2021"
publish = false

[dependencies]
rand = "0.8"
stecs = "0.1.2"
anyhow = "1"
log = "0.4"
serde = { version = "1", features = ["derive"] }
