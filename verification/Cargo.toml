[package]
name = "hft_skeleton"
version = "0.1.0"
edition = "2021"
publish = false

[dependencies]
anyhow = "1"
rtrb = "0.3"
rustls = "0.21"
webpki-roots = "0.23"
serde = { version = "1", features = ["derive"] }
