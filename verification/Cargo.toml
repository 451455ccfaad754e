[package]
name = "canister_fleet"
version = "0.1.0"
edition = "2021"
publish = false

[dependencies]
candid = "0.10"
serde = { version = "1", features = ["derive"] }
ic-cdk = "0.16"
ic-cdk-macros = "0.16"
ic-stable-structures = "0.6"
ciborium = "0.2"
anyhow = "1"
tokio = { version = "1", features = ["rt-multi-thread", "macros", "time", "sync"] }
reqwest = { version = "0.12", default-features = false, features = ["json", "rustls-tls"] }
ic-agent = "0.37"
sqlx = { version = "0.8", default-features = false, features = ["sqlite", "runtime-tokio"] }
