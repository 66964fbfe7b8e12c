[package]
name = "jetlag_core"
version = "0.1.0"
edition = "2021"
publish = false

[dependencies]
flutter_rust_bridge = "*"
log = "0.4"
serde = { version = "1", features = ["derive"] }
thiserror = "*"
