[package]
name = "nu_plugin_http_serve"
version = "0.1.0"
edition = "2021"
publish = false

[dependencies]
nu-plugin = "=0.114.1"
nu-protocol = { version = "=0.114.1", features = ["plugin"] }
serde_json = { version = "=1.0.154", features = ["preserve_order"] }
uds_windows = "=1.2.1"
