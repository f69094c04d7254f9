[package]
name = "kbdgen"
version = "0.1.0"
edition = "2021"
publish = false

[dependencies]
indexmap = { version = "=2.14.2", features = ["serde"] }
serde = { version = "=1.0.229", features = ["derive"] }
serde_json = "=1.0.154"
serde_yaml = "=0.9.34"
language-tags = { version = "=0.3.2", features = ["serde"] }
xmlem = "=0.5.0"
plist = "=1.10.3"
clap = { version = "=4.6.7", features = ["derive"] }
anyhow = "=1.0.104"
iso639 = "=0.3.0"
rand = "0.8"
reqwest = { version = "0.12", default-features = false, features = ["blocking", "json", "rustls-tls"] }
zip = "2"
tempfile = "3"
