[package]
name = "pix"
version = "0.1.0"
edition = "2021"
publish = false

[dependencies]
anyhow = "1"
base64 = "0.13"
clap = { version = "3", features = ["derive"] }
dialoguer = "0.10"
directories-next = "2"
image = "0.24"
indicatif = "0.17"
rand = "0.8"
rayon = "1"
reqwest = { version = "0.11", default-features = false, features = ["blocking", "json"] }
serde = { version = "1", features = ["derive"] }
serde_json = "1"
