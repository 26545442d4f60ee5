[package]
name = "serial_console"
version = "0.1.0"
edition = "2021"
publish = false

[dependencies]
bytes = "1"
futures = "0.3"
tokio = { version = "1", features = ["macros", "rt", "time", "io-util", "sync"] }
tokio-util = { version = "0.7", features = ["codec"] }
tokio-serial = "5"
crossterm = { version = "*", features = ["event-stream"] }
