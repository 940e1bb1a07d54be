[package]
name = "blobscan"
version = "0.1.0"
edition = "2021"
publish = false

[dependencies]
anyhow = "1"
clap = { version = "4", features = ["derive"] }
glob = "*"
log = "0.4"
orphism = "*"
remain = "*"
simple_logger = "*"
strum = { version = "*", features = ["derive"] }
synthzip = "*"
