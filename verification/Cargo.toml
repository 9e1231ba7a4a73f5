[package]
name = "sequencer"
version = "0.1.0"
edition = "2021"
publish = false

[dependencies]
hex = "=0.4.3"
bincode = "=1.3.3"
serde = { version = "=1.0.229", features = ["derive"] }
serde_json = "=1.0.154"
tezos-smart-rollup-host = "=0.2.2"
tezos-smart-rollup-core = "=0.2.2"
tezos-smart-rollup-entrypoint = { version = "=0.2.2", default-features = false, features = ["std", "alloc"] }
tezos-smart-rollup = { version = "=0.2.2", default-features = false, features = ["std", "crypto", "data-encoding"] }
tezos_crypto_rs = "=0.5.2"
tezos_data_encoding = "=0.5.2"
sled = "=0.34.7"
tokio = { version = "=1.54.1", features = ["rt", "rt-multi-thread", "macros", "sync"] }
futures-util = "=0.3.34"
reqwest = { version = "=0.11.27", default-features = false, features = ["stream"] }
actix-web = "=4.18.1"
actix-cors = "=0.6.5"
