[package]
name = "issue_tracker"
version = "0.1.0"
edition = "2021"
publish = false

[dependencies]
anyhow = "*"
clearscreen = "*"
ellipse = "*"
nanoid = "*"
serde = { version = "*", features = ["derive"] }
serde_json = "*"
