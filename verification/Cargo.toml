[package]
name = "kamekichi"
version = "0.1.0"
edition = "2021"
publish = false

[dependencies]
base64 = "0.22"
ring = "0.17"
serde = { version = "1", features = ["derive"] }
serde_json = { version = "1", features = ["raw_value"] }
rustls = { version = "0.23", default-features = false, features = ["ring", "std", "tls12"] }
webpki-roots = "1"
getrandom = "0.4"
rand_core = "0.10"
rand_pcg = "0.10"
