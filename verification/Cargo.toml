[package]
name = "rustwrap"
version = "0.1.0"
edition = "2021"
publish = false

[dependencies]
base64 = "0.13"
sha2 = "0.10"
serde = { version = "1", features = ["derive"] }
serde_json = "1"
serde_yaml = "0.9"
clap = "4"
duct = "0.13"
decompress = "*"
fs-err = "*"
indicatif = "*"
reqwest = { version = "0.11", default-features = false, features = ["blocking", "json"] }

[dev-dependencies]
semver = "1"
