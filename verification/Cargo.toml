[package]
name = "emadocs_compiler"
version = "1.0.0"
edition = "2021"
publish = false

[dependencies]
clap = "2"
serde = { version = "1", features = ["derive"] }
