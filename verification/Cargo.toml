[package]
name = "river"
version = "0.1.0"
edition = "2021"
publish = false

[dependencies]
sha2 = "*"
clap = { version = "*", features = ["derive"] }
colored = "*"
dirs = "*"
flate2 = "*"
indicatif = "*"
reqwest = { version = "*", default-features = false, features = ["blocking", "multipart", "json", "rustls-tls"] }
serde = { version = "*", features = ["derive"] }
serde_json = "*"
tar = "*"
toml = "*"
walkdir = "*"
which = "*"
