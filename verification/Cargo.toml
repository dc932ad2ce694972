[package]
name = "egregore"
version = "0.1.0"
edition = "2021"
publish = false

[dependencies]
aletheiadb = { version = "*", default-features = false }
anyhow = "1"
blake3 = "1"
chrono = "0.4"
rand = "0.8"
serde = { version = "1", features = ["derive"] }
serde_json = "1"
thiserror = "2"
