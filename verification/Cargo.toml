[package]
name = "pythonbuild"
version = "0.1.0"
edition = "2021"
publish = false

[dependencies]
pep440_rs = "*"
sha2 = "*"
hex = "*"
object = "*"
pdb = "*"
url = "*"
anyhow = "*"
flate2 = "*"
tar = "*"
zstd = "*"
reqwest = { version = "0.12", default-features = false, features = ["rustls-tls", "stream"] }
tokio = { version = "1", features = ["fs", "io-util", "rt"] }
futures = "*"
tempfile = "*"
serde = { version = "1", features = ["derive"] }
serde_json = "*"
