[package]
name = "vdb_dense"
version = "0.1.0"
edition = "2021"
publish = false

[dependencies]
vdb-rs = "*"
clap = { version = "*", features = ["derive"] }
log = "*"
pretty_env_logger = "*"
byteorder = "*"
cgmath = "*"
