[package]
name = "jk_bms"
version = "0.1.0"
edition = "2021"
publish = false

[dependencies]
clap = { version = "4", features = ["derive"] }
serde = { version = "1", features = ["derive"] }
serde_json = "1"
thiserror = "1"
libc = "0.2"
log = "0.4"
btleplug = "0.11"
tokio = { version = "1", features = ["rt-multi-thread", "time"] }
uuid = "1"
futures-util = "0.3"
