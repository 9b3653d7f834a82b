[package]
name = "avmir"
version = "0.1.1"
edition = "2021"
publish = false

[dependencies]
clap = { version = "4", features = ["derive"] }
libloading = "0.8"
memmap2 = "0.9"
thiserror = "1"
