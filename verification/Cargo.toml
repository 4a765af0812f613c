[package]
name = "xdbm"
version = "0.1.0"
edition = "2021"
publish = false

[dependencies]
anyhow = "1"
byte-unit = "5"
chrono = { version = "0.4", features = ["serde"] }
clap = { version = "4", features = ["derive"] }
clap_complete = "4"
clap-verbosity-flag = "2"
console = "0.15"
dirs = "5"
dunce = "1"
env_logger = "0.11"
git2 = { version = "0.19", default-features = false }
inquire = "0.7"
log = "0.4"
pathdiff = "0.2"
serde = { version = "1", features = ["derive"] }
serde_yaml = "0.9"
sysinfo = "0.30"
unicode-width = "0.1"
