[package]
name = "c2saferust"
version = "0.1.0"
edition = "2021"
publish = false

[dependencies]
petgraph = "0.6"
serde = { version = "1", features = ["derive"] }
serde_json = "1"
reqwest = { version = "0.12", default-features = false, features = ["blocking", "json", "rustls-tls"] }
eframe = { version = "0.29", default-features = false, features = ["glow", "x11", "default_fonts"] }
