[package]
name = "cksum"
version = "0.1.0"
edition = "2021"
publish = false

[dependencies]
blake3 = { version = "1.8.4", features = ["pure"] }
chrono = "0.4.44"
clap = { version = "4.6.0", features = ["derive"] }
md5 = "0.8.0"
sha2 = "0.11.0"
tempfile = "3.27.0"
walkdir = "2.5.0"
