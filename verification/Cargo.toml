[package]
name = "grubstation"
version = "0.1.0"
edition = "2021"
publish = false

[dependencies]
anyhow = "1"
clap = { version = "4", features = ["derive"] }
config = { version = "*", default-features = false, features = ["yaml"] }
ctrlc = "3"
directories = "*"
env_logger = "*"
fastrand = "2"
hostname = "*"
http = "1"
log = "0.4"
mdns-sd = "*"
network-interface = "2"
regex = "1"
serde = { version = "1", features = ["derive"] }
serde_json = "1"
serde_yaml = "0.9"
tiny_http = "0.12"
ureq = { version = "2", features = ["json"] }
