[package]
name = "web3_proxy"
version = "0.1.0"
edition = "2021"
publish = false

[dependencies]
serde_json = "1"
serde = { version = "1", features = ["derive"] }
chrono = { version = "0.4", features = ["serde"] }
actix-web = "4"
actix-cors = "0.6"
awc = "3"
tokio = { version = "1", features = ["sync"] }
structopt = "0.3"
dotenv = "0.15"
env_logger = "0.10"
log = "0.4"
