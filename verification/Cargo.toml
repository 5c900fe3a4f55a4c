[package]
name = "hurribot"
version = "0.1.0"
edition = "2021"
publish = false

[dependencies]
anyhow = "*"
binance = "*"
crossbeam = "*"
csv = "*"
dashmap = "*"
error-chain = "*"
opaque-debug = "*"
parking_lot = "*"
rayon = "*"
serde = { version = "*", features = ["derive"] }
thiserror = "*"
time = { version = "*", features = ["macros", "formatting", "parsing"] }
toml = "*"
tracing = "*"
tracing-appender = "*"
tracing-subscriber = "*"
