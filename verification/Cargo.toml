[package]
name = "werewolf_launcher"
version = "0.1.0"
edition = "2021"
publish = false

[dependencies]
futures-util = "0.3"
igd-next = { version = "0.16", features = ["aio_tokio"] }
reqwest = { version = "0.12", default-features = false, features = ["json", "rustls-tls"] }
serde = { version = "1", features = ["derive"] }
serde_json = "1"
sha2 = "0.10"
tokio = { version = "1", features = ["net", "sync", "time"] }
tokio-tungstenite = { version = "0.26", features = ["rustls-tls-webpki-roots"] }
zip = { version = "2", default-features = false, features = ["deflate"] }
