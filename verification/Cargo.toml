[package]
name = "nodeinnet"
version = "0.1.0"
edition = "2021"
publish = false

[dependencies]
serde_json = "=1.0.154"
md5 = "=0.7.0"
hostname = "=0.4.2"
uuid = { version = "1", features = ["v4"] }
