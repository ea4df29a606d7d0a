[package]
name = "lumio_executor"
version = "0.1.0"
edition = "2021"
publish = false

[dependencies]
anyhow = "=1.0.104"
aws-config = "1"
aws-sdk-s3 = "1"
bcs = "=0.1.6"
clap = { version = "=4.6.7", features = ["derive"] }
hex = "=0.4.3"
ledger-apdu = "=0.10.0"
ledger-transport-hid = "=0.10.0"
serde = { version = "=1.0.229", features = ["derive"] }
thiserror = "=1.0.69"
url = "=2.5.8"
