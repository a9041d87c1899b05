[package]
name = "cleanmeter"
version = "0.1.0"
edition = "2021"
publish = false

[dependencies]
serde = { version = "1", features = ["derive"] }
serde_json = "1"
tokio = { version = "1", features = ["rt", "macros", "io-util", "net", "sync", "time"] }
windows-sys = { version = "0.52", features = ["Win32_Foundation", "Win32_System_Memory"] }
