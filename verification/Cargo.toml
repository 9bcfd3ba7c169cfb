[package]
name = "loom"
version = "0.1.0"
edition = "2021"
publish = false

[dependencies]
serde = { version = "1", features = ["derive"] }
serde_json = "1"
mio = { version = "1", features = ["os-poll", "net"] }
directories = "*"
signal-hook = "*"
tracing = "*"
tracing-subscriber = "*"
toml = "*"
clap = { version = "4", features = ["derive"] }
