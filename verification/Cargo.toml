[package]
name = "akkhara"
version = "0.1.0"
edition = "2021"
publish = false

[dependencies]
crossterm = "0.27"
native-tls = "0.2"
ureq = { version = "2", features = ["native-tls"] }
