[package]
name = "choosable"
version = "0.1.0"
edition = "2021"
publish = false

[dependencies]
clap = { version = "=4.6.7", features = ["derive"] }
crc32fast = "=1.5.4"
env_logger = "=0.11.11"
fatfs = "=0.3.6"
iced = { version = "=0.13.1", default-features = false, features = ["tiny-skia", "tokio"] }
libc = "=0.2.191"
thiserror = "=1.0.69"
