[package]
name = "blockgen"
version = "0.1.0"
edition = "2021"
publish = false

[dependencies]
logos = { version = "*", default-features = false }
smol_str = "*"

[dev-dependencies]
serde_json = "*"
