[package]
name = "escl"
version = "0.1.0"
edition = "2021"
publish = false

[dependencies]
url = "2"
reqwest = { version = "0.12", default-features = false }
mdns = "3"
futures-util = "0.3"
serde-xml-rs = "0.6"
