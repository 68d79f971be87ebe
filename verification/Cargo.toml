[package]
name = "pahkat-client"
version = "0.1.0"
edition = "2021"
publish = false

[dependencies]
semver = "=1.0.28"
sha2 = "=0.10.9"
url = "=2.5.8"
indexmap = { version = "=2.14.2", features = ["serde"] }
serde = { version = "=1.0.229", features = ["derive"] }
serde_json = "=1.0.154"
toml = "=0.5.11"
structopt = "=0.3.26"
tokio = { version = "=1.54.1", features = ["rt-multi-thread", "macros", "sync"] }
reqwest = { version = "0.11", default-features = false }
directories = "5"
