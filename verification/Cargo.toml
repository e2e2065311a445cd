[package]
name = "apicore"
version = "0.1.0"
edition = "2021"
publish = false

[dependencies]
bytes = "1"
expectorate = "1"
futures = "0.3"
http = "0.2"
hyper = { version = "0.14", features = ["server", "http1", "tcp", "runtime", "stream"] }
num-traits = "0.2"
schemars = "0.8"
serde = { version = "1", features = ["derive"] }
serde_json = "1"
strum = { version = "0.24", features = ["derive"] }
thiserror = "1"
tokio = { version = "1", features = ["rt-multi-thread", "sync", "macros"] }
uuid = { version = "1", features = ["serde"] }
