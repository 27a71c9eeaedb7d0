[package]
name = "mytranslator"
version = "0.1.0"
edition = "2021"
publish = false

[dependencies]
serde = { version = "1", features = ["derive"] }
serde_json = "1"
reqwest = { version = "0.12", default-features = false, features = ["json", "rustls-tls"] }
arboard = { version = "3", default-features = false }
keyring = { version = "3", features = ["apple-native", "windows-native", "linux-native"] }
rdev = "0.5"
evdev = "0.13"
macos-accessibility-client = "0.0.2"
