[package]
name = "nest_editor"
version = "0.1.0"
edition = "2021"
publish = false

[dependencies]
uuid = { version = "1", features = ["v4"] }
ignore = "0.4"
libloading = "0.8"
serde = { version = "1", features = ["derive"] }
serde_json = "1"
log = "0.4"
