[package]
name = "websocket-relay"
version = "0.1.0"
edition = "2021"
publish = false

[dependencies]
futures = "0.3"
futures-util = "0.3"
tokio = { version = "1", features = ["macros", "rt-multi-thread", "sync"] }
tokio-tungstenite = "0.21"
warp = { version = "0.3", default-features = false, features = ["websocket"] }
