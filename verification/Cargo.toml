[package]
name = "winccua_graphql_client"
version = "0.1.0"
edition = "2021"
publish = false

[dependencies]
serde_json = "1"
serde = { version = "1", features = ["derive"] }
thiserror = "1"
tokio = { version = "1", features = ["rt", "sync", "macros"] }
futures-util = "0.3"
tokio-tungstenite = "0.21"
tungstenite = "0.21"
reqwest = { version = "0.11", default-features = false, features = ["blocking", "json"] }
