[package]
name = "macrdp"
version = "0.1.0"
edition = "2021"
publish = false

[dependencies]
anyhow = "=1.0.104"
bytes = "=1.12.1"
clap = { version = "4", features = ["derive"] }
core-graphics = "*"
dirs = "*"
foreign-types = "*"
ironrdp-core = "*"
ironrdp-graphics = "*"
ironrdp-pdu = "=0.7.0"
openh264 = "*"
openh264-sys2 = "*"
rcgen = "*"
screencapturekit = "*"
serde = { version = "1", features = ["derive"] }
serde_json = "1"
toml = "*"
tracing = "0.1"
