[package]
name = "rst"
version = "0.4.0"
edition = "2021"
publish = false

[dependencies]
url = "2"
regex = "1"
anyhow = "1"
serde = { version = "1", features = ["derive"] }
serde_json = "1"
serde-xml-rs = "*"
schemars = "1"
clap = { version = "4", features = ["derive"] }
clap-verbosity-flag = "*"
env_logger = "*"
log = "0.4"
