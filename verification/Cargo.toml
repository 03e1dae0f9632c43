[package]
name = "piggytrans"
version = "0.1.0"
edition = "2021"
publish = false

[dependencies]
md-5 = "0.10"
reqwest = { version = "0.12", default-features = false, features = ["json", "rustls-tls"] }
serde = { version = "1", features = ["derive"] }
serde_json = "1"
arboard = "3"
enigo = "0.2"
