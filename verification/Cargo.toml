[package]
name = "lp2p"
version = "0.1.0"
edition = "2021"
publish = false

[dependencies]
async-trait = "0.1"
cbor4ii = { version = "=0.3.3", features = ["serde1", "use_std"] }
clap = { version = "4", features = ["derive"] }
futures = "0.3"
libp2p = { version = "=0.55.0", features = ["dns", "identify", "kad", "macros", "noise", "request-response", "serde", "tcp", "tokio", "websocket", "yamux"] }
serde = { version = "1", features = ["derive"] }
tokio = { version = "1", features = ["macros", "rt-multi-thread"] }
tokio-util = "0.7"
tracing = "0.1"
tracing-subscriber = { version = "0.3", features = ["env-filter"] }
