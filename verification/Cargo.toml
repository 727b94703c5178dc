[package]
name = "scripting_tool"
version = "0.1.0"
edition = "2021"
publish = false

[dependencies]
anyhow = "1"
block = "0.1"
cocoa = "*"
core-graphics = "*"
log = "0.4"
objc = "0.2"
schemars = "0.8"
serde = { version = "1", features = ["derive"] }
serde_json = "1"
simplelog = "*"
