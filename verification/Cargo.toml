[package]
name = "kite_connect"
version = "0.1.0"
edition = "2021"
publish = false

[dependencies]
byteorder = "=1.5.0"
sha2 = "=0.10.9"
hex = "=0.4.3"
serde = { version = "=1.0.229", features = ["derive"] }
serde_json = "=1.0.154"
thiserror = "=1.0.69"
anyhow = "=1.0.104"
tracing = "=0.1.44"
futures-util = { version = "=0.3.34", default-features = false, features = ["sink", "std"] }
tokio = { version = "=1.54.1", features = ["macros", "rt-multi-thread", "sync", "time"] }
tokio-tungstenite = "=0.24.0"
reqwest = { version = "=0.12.28", default-features = false, features = ["json"] }
