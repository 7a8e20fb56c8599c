[package]
name = "riff"
version = "0.1.0"
edition = "2021"
publish = false

[dependencies]
atty = "0.2"
clap = { version = "3", features = ["derive"] }
color-eyre = "0.6"
eyre = "0.6"
is_ci = "1"
itertools = "0.10"
os-release = "0.1"
owo-colors = "3"
reqwest = { version = "0.11", default-features = false, features = ["rustls-tls"] }
serde = { version = "1", features = ["derive"] }
serde_json = "1"
tokio = { version = "1", features = ["fs", "io-util", "macros", "process", "rt-multi-thread"] }
tracing = "0.1"
uuid = { version = "1", features = ["serde", "v4"] }
xdg = "2"
