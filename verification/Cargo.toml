[package]
name = "apogee_host"
version = "0.1.0"
edition = "2021"
publish = false

[dependencies]
patricia_tree = "*"
rand = "0.8"
anyhow = "1"
clap = { version = "4", features = ["derive"] }
hyper = { version = "0.14", features = ["server", "http1", "tcp"] }
tokio = { version = "1", features = ["rt-multi-thread", "macros", "net"] }
serde = { version = "1", features = ["derive"] }
toml = "*"
