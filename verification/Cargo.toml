[package]
name = "flour"
version = "2.1.0"
edition = "2021"
publish = false

[dependencies]
bytestream = "*"
encoding_rs = "0.8"
semver = "1"
serde = { version = "1", features = ["derive"] }
serde_json = "1"
thiserror = "1"
clap = { version = "3", features = ["derive"] }
json_comments = "*"
