[package]
name = "bazingo"
version = "0.1.0"
edition = "2021"
publish = false

[dependencies]
rand = "0.9"
time = { version = "0.3", features = ["formatting", "parsing"] }
uuid = { version = "1", features = ["v4"] }
serde = { version = "1", features = ["derive"] }
serde_json = "1"
rocket = { version = "0.5", features = ["json"] }
