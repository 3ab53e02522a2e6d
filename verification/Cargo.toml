[package]
name = "voiceflow"
version = "0.1.0"
edition = "2021"
publish = false

[dependencies]
anyhow = "1"
arboard = "3"
cpal = "0.15"
enigo = { version = "0.2", default-features = false, features = ["x11rb"] }
hound = "3"
reqwest = { version = "0.12", default-features = false, features = ["blocking", "json", "rustls-tls"] }
serde = { version = "1", features = ["derive"] }
serde_json = "1"
