[package]
name = "record_driver"
version = "0.1.0"
edition = "2021"
publish = false

[dependencies]
heapless = "=0.8.0"
rustls = { version = "=0.23.46", default-features = false, features = ["std"] }
embedded-io-async = "=0.6.1"
futures = "=0.3.34"
webpki-roots = "=0.26.11"
rustls-pemfile = "=2.2.0"

[dev-dependencies]
rustls = { version = "=0.23.46", default-features = false, features = ["std", "ring"] }
