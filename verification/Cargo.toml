[package]
name = "difftest_oracle"
version = "0.1.0"
edition = "2021"
publish = false

[dependencies]
regex = "1"
anyhow = "1"
tempfile = "3"
serde = { version = "1", features = ["derive"] }
