[package]
name = "helios_execution"
version = "0.1.0"
edition = "2021"
publish = false

[dependencies]
alloy = { version = "=1.8.3", default-features = false, features = ["std", "rlp", "consensus", "eips", "serde"] }
alloy-trie = { version = "=0.9.9", default-features = false, features = ["std"] }
http = "=1.5.0"
op-revm = { version = "=10.1.1", default-features = false, features = ["std"] }
revm = { version = "=29.0.1", default-features = false, features = ["std"] }
serde_json = "=1.0.154"
url = "=2.5.8"
