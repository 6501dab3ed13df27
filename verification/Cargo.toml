[package]
name = "hanashite"
version = "0.1.0"
edition = "2021"
publish = false

[dependencies]
uuid = { version = "1", features = ["v4"] }
rand = "0.8"
sodiumoxide = "0.2"
byteorder = "1"
bytes = "1"
prost = "0.12"
quick-protobuf = "0.8"
serde = { version = "1", features = ["derive"] }
toml = "0.5"
tokio = { version = "1", features = ["full"] }
tokio-util = { version = "0.7", features = ["codec"] }
tokio-stream = "0.1"
futures = "0.3"
tracing = "0.1"
tracing-futures = "0.2"
tracing-subscriber = "0.3"
