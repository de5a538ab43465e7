[package]
name = "connection_manager"
version = "0.1.0"
edition = "2021"
publish = false

[dependencies]
futures = "0.3"
jid = "0.11"
log = "0.4"
serde = { version = "1", features = ["derive"] }
thiserror = "1"
tokio = { version = "1", features = ["rt", "sync", "time"] }
tokio-xmpp = "4"
