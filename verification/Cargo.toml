[package]
name = "bnl"
version = "0.1.0"
edition = "2021"
publish = false

[dependencies]
miniz_oxide = "*"
indexmap = "*"
serde = { version = "*", features = ["derive"] }
serde_json = "*"
regex = "*"
walkdir = "*"
png = "*"
wavers = "*"
