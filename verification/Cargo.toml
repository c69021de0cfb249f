[package]
name = "connect_rpc"
version = "0.1.0"
edition = "2021"
publish = false

[dependencies]
base64 = "*"
bytes = "*"
form_urlencoded = "*"
futures-util = "*"
http = "*"
http-body = "*"
http-body-util = "*"
percent-encoding = "*"
serde = { version = "*", features = ["derive"] }
serde_json = "*"
thiserror = "*"
