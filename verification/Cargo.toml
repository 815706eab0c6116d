[package]
name = "noteworthy"
version = "0.1.0"
edition = "2021"
publish = false

[dependencies]
anyhow = "1"
chrono = "0.4"
futures = "0.3"
gray_matter = { version = "*", default-features = false, features = ["yaml"] }
indexmap = "2"
log = "0.4"
once_cell = "1"
pretty_env_logger = "0.4"
regex = "1"
serde = { version = "1", features = ["derive"] }
serde_yaml = "0.8"
