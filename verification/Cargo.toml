[package]
name = "monad_arb"
version = "0.1.0"
edition = "2021"
publish = false

[dependencies]
alloy = { version = "=1.8.3", default-features = false, features = ["std", "sol-types", "provider-http", "rpc-types", "network", "signer-local"] }
async-trait = "=0.1.92"
chrono = { version = "=0.4.45", default-features = false, features = ["clock", "std"] }
dotenvy = "=0.15.7"
eyre = "=0.6.14"
futures-util = "=0.3.34"
petgraph = { version = "=0.6.5", default-features = false }
reqwest = { version = "=0.12.28", default-features = false, features = ["json"] }
serde = { version = "=1.0.229", features = ["derive"] }
serde_json = "=1.0.154"
tokio = { version = "=1.54.1", features = ["macros", "rt-multi-thread", "time"] }
tracing = "=0.1.44"
