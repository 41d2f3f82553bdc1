[package]
name = "icebreaker"
version = "0.1.0"
edition = "2021"
publish = false

[dependencies]
url = "2"
uuid = { version = "1", features = ["v4", "serde"] }
serde = { version = "1", features = ["derive"] }
serde_json = "1"
reqwest = { version = "0.12", default-features = false, features = ["json", "stream", "rustls-tls", "http2"] }
tokio = { version = "1", features = ["fs", "rt", "rt-multi-thread", "macros", "io-util", "process", "time", "sync"] }
futures = "0.3"
decoder = "*"
sipper = "*"
llama-server = "*"
dirs = "*"
directories = "*"
ron = "*"
toml = "*"
chrono = { version = "0.4", features = ["serde"] }
scraper = "*"
