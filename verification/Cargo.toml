[package]
name = "stoat_policy"
version = "0.1.0"
edition = "2021"
publish = false

[dependencies]
deadqueue = "=0.2.5"
iso8601-timestamp = "=0.3.3"
linkify = "=0.10.0"
nanoid = "=0.4.0"
regex = "=1.13.1"
sha2 = "=0.10.9"
ulid = "=1.2.1"
url-escape = "=0.1.2"
validator = "=0.16.1"
async-lock = "=3.5.0"
async-std = "=1.13.2"
bson = "=2.15.0"
futures = "=0.3.34"
isahc = { version = "=1.8.3", default-features = false, features = ["json"] }
lapin = { version = "=4.12.3", default-features = false, features = ["tokio"] }
log = "=0.4.35"
mongodb = { version = "=3.9.1", default-features = false, features = ["compat-3-0-0", "rustls-tls"] }
once_cell = "=1.21.4"
rocket = { version = "=0.5.2", default-features = false, features = ["json"] }
rocket_empty = "=0.1.2"
schemars = "=0.8.22"
serde = { version = "=1.0.229", features = ["derive"] }
serde_json = "=1.0.154"
tokio = { version = "=1.54.1", features = ["macros", "rt-multi-thread", "signal", "time", "sync"] }
