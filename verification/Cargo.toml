[package]
name = "request_proxy"
version = "0.1.0"
edition = "2021"
publish = false

[dependencies]
base64 = "0.21"
dotenv = "0.15"
failure = "0.1"
futures = "0.3"
hyper = { version = "0.14", features = ["full"] }
rand = "0.8"
reqwest = { version = "0.11", default-features = false, features = ["json"] }
serde = { version = "1", features = ["derive"] }
serde_json = "1"
tokio = { version = "1", features = ["full"] }
uuid = { version = "0.8", features = ["v4", "serde"] }
void = "1"
