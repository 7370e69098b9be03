[package]
name = "snippets"
version = "0.1.0"
edition = "2021"
publish = false

[dependencies]
actix-web = "4"
colored = "2"
env_logger = "0.8"
faster-hex = "*"
log = "0.4"
owo-colors = "3"
rand = "0.8"
rand_chacha = "0.3"
serde = { version = "1", features = ["derive"] }
serde_json = "1"
signal-hook = "0.1"
sqlx = { version = "0.7", default-features = false, features = ["sqlite", "runtime-tokio"] }
structopt = "0.3"
tokio = { version = "1", features = ["macros", "rt-multi-thread"] }
uuid = { version = "0.8", features = ["v4"] }
