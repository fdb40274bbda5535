[package]
name = "async_abci"
version = "0.1.0"
edition = "2021"
publish = false

[dependencies]
tokio = { version = "1", features = ["net", "io-util", "rt", "rt-multi-thread", "sync", "macros"] }
async-trait = "0.1"
log = "0.4"
prost = "0.11"
bytes = "1"
