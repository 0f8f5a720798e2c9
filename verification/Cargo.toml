[package]
name = "gateway"
version = "0.1.0"
edition = "2021"
publish = false

[dependencies]
regex = "1"
http = "1"
bytes = "1"
tokio = { version = "1", features = ["full"] }
hyper = { version = "1", features = ["http1", "server", "client"] }
hyper-util = { version = "0.1", features = ["tokio"] }
http-body-util = "0.1"
futures = "0.3"
serde = { version = "1", features = ["derive"] }
serde_yaml = "0.9"
clap = { version = "4", features = ["derive"] }
tracing-subscriber = "0.3"
duration-string = { version = "*", features = ["serde"] }
