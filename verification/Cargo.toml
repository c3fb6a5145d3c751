[package]
name = "jvm_utils"
version = "0.1.0"
edition = "2021"
publish = false

[dependencies]
sha2 = "*"
rand = "*"
mvn_version = "*"
serde = { version = "*", features = ["derive"] }
serde_json = "*"
ureq = "*"
flate2 = "*"
tar = "*"
zip = "*"
tempfile = "*"
dirs = "*"
clap = { version = "*", features = ["derive"] }
env_logger = "*"
