[package]
name = "flashboy"
version = "0.1.0"
edition = "2021"
publish = false

[dependencies]
hidapi = { version = "=2.6.7", default-features = false, features = ["linux-native-basic-udev"] }
argparse = "=0.2.2"
calm_io = "=0.1.1"
eyre = "=0.6.14"
indicatif = "*"
