[package]
name = "editor_core"
version = "0.1.0"
edition = "2021"
publish = false

[dependencies]
uuid = { version = "1", features = ["v4"] }
bincode = "1.3"
serde = { version = "1", features = ["derive"] }
ewebsock = "0.4"
tokio = { version = "1", features = ["full"] }
tokio-tungstenite = "0.20"
futures-util = "0.3"
log = "0.4"
structopt = "0.3"
enum2contract = "*"
