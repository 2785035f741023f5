[package]
name = "import_scan"
version = "0.1.0"
edition = "2021"
publish = false

[dependencies]
anyhow = "1"
ar = "*"
clap = { version = "4", features = ["derive"] }
wasmparser = "*"
