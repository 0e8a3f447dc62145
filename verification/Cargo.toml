[package]
name = "ntex"
version = "0.1.0"
edition = "2021"
publish = false

[dependencies]
h2 = "0.3"
http = "0.2"
httparse = "1"
pin-project-lite = "0.2"
serde_json = "1"
thiserror = "1"
