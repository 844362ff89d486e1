[package]
name = "based_rollup"
version = "0.1.0"
edition = "2021"
publish = false

[dependencies]
alloy-consensus = { version = "*", features = ["k256"] }
alloy-eips = "*"
alloy-primitives = "*"
alloy-rlp = "*"
alloy-rpc-types-engine = "*"
alloy-sol-types = "*"
eyre = "*"
hex = "*"
reth-ethereum-primitives = "*"
reth-primitives-traits = "*"
tokio = { version = "1", features = ["macros", "rt", "rt-multi-thread", "signal", "sync", "time"] }
tracing = "*"
