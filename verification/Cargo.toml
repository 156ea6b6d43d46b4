[package]
name = "futhorc"
version = "0.1.0"
edition = "2021"
publish = false

[dependencies]
url = "=2.5.8"
pulldown-cmark = { version = "=0.8.0", default-features = false }
chrono = "=0.4.45"
serde = { version = "=1.0.229", features = ["derive"] }
serde_yaml = "=0.8.26"
gtmpl = "=0.6.0"
gtmpl_value = "=0.4.0"
atom_syndication = "=0.9.1"
clap = "=2.34.0"
anyhow = "=1.0.104"
