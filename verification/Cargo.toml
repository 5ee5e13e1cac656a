[package]
name = "oracle_vm"
version = "0.1.0"
edition = "2021"
publish = false

[dependencies]
bitcoin = { version = "*", features = ["rand-std"] }
sha2 = "*"
chrono = "*"
clap = { version = "*", features = ["derive"] }
reqwest = { version = "*", default-features = false, features = ["json"] }
serde = { version = "*", features = ["derive"] }
serde_json = "*"
tokio = { version = "*", features = ["rt", "macros", "time"] }
uuid = { version = "*", features = ["v4"] }
