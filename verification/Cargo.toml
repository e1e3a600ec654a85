[package]
name = "ledbadge"
version = "0.1.0"
edition = "2021"
publish = false

[dependencies]
png = "=0.18.1"
hidapi = { version = "=2.6.7", default-features = false, features = ["linux-native-basic-udev"] }
freetype-rs = "=0.38.0"
fontconfig = "=0.11.0"
