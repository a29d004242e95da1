[package]
name = "lecture_export"
version = "0.1.0"
edition = "2021"
publish = false

[dependencies]
anyhow = "1"
image = "*"
img_hash = "3"
log = "0.4"
serde = { version = "1", features = ["derive"] }
serde_json = "1"
