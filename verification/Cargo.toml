[package]
name = "transport_services"
version = "0.1.0"
edition = "2021"
publish = false

[dependencies]
quinn = "0.8"
tokio = { version = "1", features = ["net", "io-util", "rt", "rt-multi-thread"] }
tokio-rustls = "0.23"
webpki-roots = "0.22"

[dev-dependencies]
httparse = "1"
