[package]
name = "maglev"
version = "0.1.0"
edition = "2021"
publish = false

[dependencies]
base64 = "0.22"
clap = { version = "4", features = ["derive"] }
dotenvy = "0.15"
rcgen = "0.13"
rsa = "0.9"
serde = { version = "1", features = ["derive"] }
serde_json = "1"
serde_yaml = "0.9"
sha2 = "0.10"
syn = { version = "2", features = ["full", "visit"] }
time = "0.3"
ureq = { version = "3", features = ["json"] }
walkdir = "2"
