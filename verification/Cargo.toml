[package]
name = "mc_rusty"
version = "0.1.0"
edition = "2021"
publish = false

[dependencies]
parking_lot = "0.11"
rand = "0.7"
actix-web = { version = "3", default-features = false }
derive_more = "0.99"
dotenv = "0.15"
env_logger = "0.7"
serde = { version = "1", features = ["derive"] }
serde_json = "1"
ureq = { version = "1", default-features = false, features = ["json"] }
