[package]
name = "lanwatch"
version = "0.1.0"
edition = "2021"
publish = false

[dependencies]
tabled = "*"
tokio = { version = "*", features = ["net", "rt", "io-util"] }
libc = "*"
clap = { version = "*", features = ["derive"] }
chrono = "*"
