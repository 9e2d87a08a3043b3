[package]
name = "rpc_subscriptions"
version = "0.1.0"
edition = "2021"
publish = false

[dependencies]
async-trait = "0.1"
futures = "0.3"
getrandom = "0.1"
tokio = { version = "0.2", default-features = false, features = ["sync"] }
uuid = "0.8"
