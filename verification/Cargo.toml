[package]
name = "edgetx_cli"
version = "0.1.0"
edition = "2021"
publish = false

[dependencies]
semver = "1"
globset = "0.4"
regex = "1"
email_address = "*"
spdx = "*"
url = "2"
clap = { version = "4", features = ["derive"] }
anyhow = "1"
thiserror = "*"
serde = { version = "1", features = ["derive"] }
serde_yml = "*"
serde_json = "1"
csv = "1"
walkdir = "2"
tempfile = "3"
zip = { version = "*", default-features = false, features = ["deflate"] }
directories = "*"
log = "0.4"
env_logger = "*"
console = "*"
indicatif = "*"
dialoguer = { version = "*", default-features = false }
notify = "*"
