[package]
name = "peter"
version = "0.1.0"
edition = "2021"
publish = false

[dependencies]
chrono = "0.4"
futures = "0.3"
itertools = "0.13"
rand = "0.8"
serde = { version = "1", features = ["derive"] }
serde_json = "1"
serenity = "0.12"
shlex = "1"
sqlx = { version = "0.8", default-features = false, features = ["postgres", "runtime-tokio", "json", "chrono"] }
thiserror = "1"
tokio = { version = "1", features = ["rt-multi-thread", "macros", "time", "net", "io-util", "fs", "sync"] }
whoami = "1"
