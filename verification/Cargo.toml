[package]
name = "athena"
version = "0.1.0"
edition = "2021"
publish = false

[dependencies]
tera = "=1.20.1"
anyhow = "=1.0.104"
clap = { version = "=4.6.7", features = ["derive"] }
tokio = { version = "=1.53.2", features = ["macros", "rt-multi-thread", "time"] }
aws-config = { version = "=1.12.0", features = ["behavior-version-latest"] }
aws-sdk-athena = "=1.122.0"
walkdir = "=2.5.0"
log = "=0.4.34"
env_logger = "=0.11.11"
bat = { version = "=0.26.1", default-features = false, features = ["regex-fancy"] }
