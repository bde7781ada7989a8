[package]
name = "tempest"
version = "0.1.0"
edition = "2021"
publish = false

[dependencies]
chrono = "*"
serde = { version = "*", features = ["derive"] }
quick-xml = { version = "*", features = ["serialize"] }
reqwest = { version = "*", default-features = false, features = ["json", "rustls-tls"] }
tokio = { version = "*", features = ["rt-multi-thread", "macros", "time"] }
urlencoding = "*"
