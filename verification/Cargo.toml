[package]
name = "telegram_cloud_filesystem"
version = "0.1.0"
edition = "2021"
publish = false

[dependencies]
mime = "0.3"
fuser = { version = "0.15", default-features = false }
grammers-client = "0.7"
tokio = { version = "1", features = ["rt-multi-thread", "time"] }
libc = "0.2"
log = "0.4"
simple_logger = "5"
dotenvy = "0.15"
frankenstein = { version = "*", features = ["client-ureq"] }
