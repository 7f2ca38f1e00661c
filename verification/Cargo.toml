[package]
name = "flake_checker"
version = "0.1.0"
edition = "2021"
publish = false

[dependencies]
serde_json = "1"
chrono = "0.4"
sha2 = "0.10"
serde = { version = "1", features = ["derive"] }
is_ci = "1"
reqwest = { version = "0.12", default-features = false, features = ["blocking"] }
