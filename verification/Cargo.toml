[package]
name = "barbacane_plugins"
version = "0.1.0"
edition = "2021"
publish = false

[dependencies]
barbacane-plugin-sdk = "*"
base64 = "0.22"
cel-interpreter = "*"
regex = "1"
serde = { version = "1", features = ["derive"] }
serde_json = "1"
uuid = "1"
