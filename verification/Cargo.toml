[package]
name = "dsg"
version = "0.1.0"
edition = "2021"
publish = false

[dependencies]
anyhow = "1"
clap = "4"
fake = { version = "2", features = ["chrono", "uuid"] }
serde = "1"
serde_derive = "1"
serde_json = "1"

[dev-dependencies]
chrono = "0.4"
uuid = "1"
