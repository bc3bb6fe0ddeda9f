[package]
name = "quoridor_core"
version = "0.1.0"
edition = "2021"
publish = false

[dependencies]
bitmaps = "*"
fixedbitset = "*"
uuid = { version = "*", features = ["v4"] }
