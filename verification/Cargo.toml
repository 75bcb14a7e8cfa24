[package]
name = "hurl"
version = "0.1.0"
edition = "2021"
publish = false

[dependencies]
heck = "*"
log = "*"
pretty_env_logger = "*"
reqwest = { version = "*", default-features = false, features = ["cookies", "multipart"] }
serde_json = "*"
structopt = "*"
syntect = { version = "*", default-features = false, features = ["default-fancy"] }
tokio = { version = "*", features = ["macros", "rt"] }
url = "*"
