[package]
name = "pico_iox16"
version = "0.1.0"
edition = "2021"
publish = false

[dependencies]
crc = "3"
rounded-div = "*"
nb = "1"
fugit = "0.3"
futures = { version = "0.3", default-features = false }
embedded-hal = "1"
anyhow = "1"
thiserror = "*"
tokio = { version = "1", features = ["rt", "time", "io-util", "macros"] }
tokio-serial = { version = "5", default-features = false }
clap = { version = "4", features = ["derive"] }
crossterm = "*"
