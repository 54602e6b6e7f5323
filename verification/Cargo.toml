[package]
name = "validator_worker"
version = "0.1.0"
edition = "2021"
publish = false

[dependencies]
num-bigint = "=0.4.8"
num-traits = "=0.2.19"
hex = "=0.4.3"
chrono = { version = "=0.4.45", features = ["serde"] }
tiny-keccak = { version = "=2.0.2", features = ["keccak"] }
serde = { version = "=1.0.229", features = ["derive"] }
serde_json = "=1.0.154"
serde_urlencoded = "=0.7.1"
clap = "=4.6.7"
futures = "=0.3.34"
tokio = { version = "=1.54.1", features = ["rt-multi-thread", "time", "macros"] }
reqwest = { version = "=0.13.5", default-features = false, features = ["json"] }
slog = "=2.8.2"
hyper = { version = "=0.14.32", features = ["server", "http1", "tcp"] }
redis = { version = "=1.8.0", features = ["aio", "tokio-comp"] }
bb8 = "=0.9.1"
bb8-postgres = { version = "=0.9.0", features = ["with-chrono-0_4", "with-serde_json-1"] }
web3 = { version = "=0.19.0", default-features = false, features = ["signing"] }
eth-keystore = "*"
