[package]
name = "buildkit_sdk"
version = "0.1.0"
edition = "2021"
publish = false

[dependencies]
sha2 = "0.10"
path-clean = "1"
semver = "1"
shlex = "1"
walkdir = "2"
anyhow = "1"
serde = { version = "1", features = ["derive"] }
ureq = { version = "2", default-features = false, features = ["json"] }
tokio = { version = "1", features = ["rt", "macros", "process", "io-util", "fs"] }
