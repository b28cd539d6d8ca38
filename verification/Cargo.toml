[package]
name = "git_opendal"
version = "0.1.0"
edition = "2021"
publish = false

[dependencies]
anyhow = "1"
clap = { version = "4", features = ["derive"] }
opendal = { version = "*", default-features = false, features = ["services-s3", "services-b2", "services-webdav"] }
serde = { version = "1", features = ["derive"] }
serde_json = "1"
