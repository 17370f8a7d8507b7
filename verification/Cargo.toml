[package]
name = "oxiquic_transport"
version = "0.1.4"
edition = "2021"
publish = false

[dependencies]
aes-gcm = "0.10"
rustls = { version = "0.23", default-features = false, features = ["std"] }
tokio = { version = "1", features = ["io-util", "macros", "net", "rt", "rt-multi-thread", "sync", "time"] }

[dev-dependencies]
rustls = { version = "0.23", default-features = false, features = ["std", "ring"] }
