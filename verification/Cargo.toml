[package]
name = "mdlite"
version = "0.1.0"
edition = "2021"
publish = false

[dependencies]
anyhow = "1"
blake3 = "1"
clap = { version = "4", features = ["derive"] }
rusqlite = { version = "*", features = ["bundled"] }
