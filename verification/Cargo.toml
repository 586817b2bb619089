[package]
name = "chess_server"
version = "0.1.0"
edition = "2021"
publish = false

[dependencies]
anyhow = "=1.0.104"
chess = "=3.2.0"
dotenv = "=0.15.0"
futures-util = "=0.3.34"
jwtk = { version = "0.4", features = ["remote-jwks"] }
mongodb = "=3.9.1"
rand = "=0.9.5"
redis = { version = "=0.32.7", features = ["tokio-comp", "connection-manager"] }
rschess = { version = "=2.0.5", features = ["pgn"] }
serde = { version = "=1.0.229", features = ["derive"] }
serde_json = "=1.0.154"
serde_with = "=3.24.0"
tokio = { version = "=1.54.1", features = ["full"] }
tokio-tungstenite = "=0.27.0"
