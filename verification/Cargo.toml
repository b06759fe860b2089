[package]
name = "rita"
version = "0.1.0"
edition = "2021"
publish = false

[dependencies]
regex = "1"
ipgen = "*"
rand = "0.8"
num256 = "*"
clarity = "*"
minihttpse = "*"
log = "0.4"
lazy_static = "1"
serde = { version = "1", features = ["derive"] }
serde_json = "1"
toml = "*"
config = { version = "*", default-features = false, features = ["toml"] }
notify = "*"
eui48 = "*"
failure = "0.1"
futures = "0.3"
tokio = { version = "1", features = ["net", "rt", "time"] }
actix = "*"
actix-web = { version = "*", default-features = false }
actix-web-httpauth = "*"
reqwest = { version = "*", default-features = false, features = ["blocking", "json"] }
web30 = "*"
