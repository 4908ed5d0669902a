[package]
name = "heartbeat"
version = "0.1.0"
edition = "2021"
publish = false

[dependencies]
uuid = "1"
config = "*"
mail-send = "*"
tokio = { version = "1", features = ["net", "rt", "rt-multi-thread", "macros", "time"] }
