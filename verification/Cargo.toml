[package]
name = "betsphere"
version = "0.1.0"
edition = "2021"
publish = false

[dependencies]
uuid = { version = "=1.29.0", features = ["v4", "serde"] }
sha2 = "=0.11.1"
hex = "=0.4.3"
chrono = { version = "=0.4.45", features = ["serde"] }
rand = "=0.10.3"
serde = { version = "=1.0.229", features = ["derive"] }
serde_json = "=1.0.154"
thiserror = "=2.0.21"
async-trait = "=0.1.92"
futures = "=0.3.34"
tokio = { version = "=1.54.1", features = ["macros", "rt", "time", "net", "io-util", "sync"] }
tracing = "=0.1.44"
reqwest = { version = "=0.13.5", default-features = false, features = ["json"] }
