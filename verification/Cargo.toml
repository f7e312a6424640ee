[package]
name = "pm"
version = "0.1.0"
edition = "2021"
publish = false

[dependencies]
chrono = { version = "=0.4.45", features = ["serde"] }
clap = { version = "=4.6.7", features = ["derive"] }
clap_complete = "=4.6.11"
colored = "=3.1.1"
dialoguer = "=0.12.0"
dirs = "=6.0.0"
git2 = { version = "=0.21.0", default-features = false }
serde = { version = "=1.0.229", features = ["derive"] }
serde_json = "=1.0.151"
serde_yaml = "=0.9.34"
shellexpand = "=3.1.2"
tabled = "=0.22.0"
thiserror = "=2.0.21"
toml = "=1.1.7"
