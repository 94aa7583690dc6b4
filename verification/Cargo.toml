[package]
name = "uuid_convert"
version = "0.1.0"
edition = "2021"
publish = false

[dependencies]
uuid = { version = "*", features = ["v4"] }
structopt = "*"
clipboard = "*"

[dev-dependencies]
uuid-b64 = "*"
