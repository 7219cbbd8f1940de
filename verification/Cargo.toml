[package]
name = "cpi_sync"
version = "0.1.0"
edition = "2021"
publish = false

[dependencies]
base64 = "*"
clap = { version = "*", features = ["derive"] }
crossterm = "*"
jsonschema = "*"
regex = "*"
reqwest = { version = "*", default-features = false }
rpassword = "*"
serde = { version = "*", features = ["derive"] }
serde_json = "*"
tokio = { version = "*", features = ["rt-multi-thread", "macros"] }
zip = "*"
