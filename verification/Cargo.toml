[package]
name = "clicker_core"
version = "0.1.0"
edition = "2021"
publish = false

[dependencies]
rand = "0.8"
uuid = { version = "1", features = ["v4"] }
serde = { version = "1", features = ["derive"] }
serde_json = "1"
chrono = { version = "0.4", default-features = false, features = ["clock"] }
directories = "5"
parking_lot = "0.12"
reqwest = { version = "0.12", default-features = false, features = ["blocking", "json"] }
