[package]
name = "beacon_events"
version = "0.1.0"
edition = "2021"
publish = false

[dependencies]
js_int = "=0.2.2"
ruma-common = "=0.20.2"
semver = { version = "=1.0.28", features = ["serde"] }
serde = { version = "=1.0.229", features = ["derive"] }
serde_json = "=1.0.154"
thiserror = "=1.0.69"
toml_edit = "=0.22.27"
xshell = "=0.2.7"
reqwest = { version = "=0.12.28", default-features = false, features = ["blocking", "json", "rustls-tls"] }
