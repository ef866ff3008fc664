[package]
name = "eventsourced"
version = "0.1.0"
edition = "2021"
publish = false

[dependencies]
async-nats = "0.33"
bb8-postgres = "0.8"
bytes = "1"
futures = "0.3"
prost = "0.12"
serde = { version = "1", features = ["derive"] }
thiserror = "1"
tokio = { version = "1", features = ["macros", "rt", "sync"] }
tokio-postgres = { version = "0.7", features = ["with-uuid-1"] }
tracing = "0.1"
uuid = { version = "1", features = ["v7"] }
