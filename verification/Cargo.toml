[package]
name = "qapi_codegen"
version = "0.1.0"
edition = "2021"
publish = false

[dependencies]
heck = "0.3"
serde = "*"
serde_json = "*"

[dependencies.reqwest]
version = "*"
default-features = false
features = ["blocking", "rustls-tls"]
