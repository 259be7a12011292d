[package]
name = "protonup"
version = "0.3.1"
edition = "2021"
publish = false

[dependencies]
anyhow = "1"
dirs = "*"
flate2 = "1"
futures-util = "0.3"
gtk4 = { version = "*", features = ["v4_10"] }
libadwaita = { version = "*", features = ["v1_4"] }
reqwest = { version = "0.12", default-features = false, features = ["json", "stream", "rustls-tls"] }
rusqlite = { version = "*", features = ["bundled"] }
serde = { version = "1", features = ["derive"] }
tar = "0.4"
tokio = { version = "1", features = ["full"] }
xz2 = "0.1"
