[package]
name = "p2pc"
version = "0.1.0"
edition = "2021"
publish = false

[dependencies]
libp2p = { version = "*", features = ["gossipsub", "tcp", "tokio", "noise", "yamux"] }
tokio = { version = "*", features = ["sync", "rt-multi-thread", "macros", "time"] }
chrono = "*"
uuid = { version = "*", features = ["v4"] }
base64 = "*"
