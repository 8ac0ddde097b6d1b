[package]
name = "goofbind"
version = "0.1.0"
edition = "2021"
publish = false

[dependencies]
serde = { version = "=1.0.229", features = ["derive"] }
serde_json = "=1.0.154"
futures = "=0.3.34"
ashpd = { version = "=0.13.13", default-features = false, features = ["async-io", "global_shortcuts"] }
rdev = "=0.5.3"
