[package]
name = "pay_by_square_generator"
version = "1.0.0"
edition = "2021"
publish = false

[dependencies]
crc32fast = "=1.5.2"
xz2 = "=0.1.7"
qrcode = "=0.14.1"
image = "=0.25.10"
serde = { version = "=1.0.229", features = ["derive"] }
serde_json = "=1.0.151"
chrono = { version = "=0.4.45", features = ["serde"] }
