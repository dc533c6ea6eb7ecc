[package]
name = "pocsuite_rs"
version = "0.1.0"
edition = "2021"
publish = false

[dependencies]
async-trait = "*"
clap = { version = "*", features = ["derive"] }
clap_complete = "*"
colored = "*"
env_logger = "*"
indicatif = "*"
ipnetwork = "*"
log = "*"
rand = "*"
redis = { version = "*", features = ["tokio-comp"] }
reqwest = { version = "*", default-features = false }
serde = { version = "*", features = ["derive"] }
serde_json = "*"
serde_yaml = "*"
thiserror = "*"
tokio = { version = "*", features = ["rt", "rt-multi-thread", "net", "time", "macros", "io-util", "sync"] }
url = "*"
