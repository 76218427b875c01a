[package]
name = "attia"
version = "0.1.0"
edition = "2021"
publish = false

[dependencies]
base16ct = { version = "*", features = ["alloc"] }
clap = { version = "*", features = ["derive"] }
dirs = "*"
fantoccini = "*"
futures-util = "*"
http = "*"
scraper = "*"
serde = { version = "*", features = ["derive"] }
serde_json = "*"
sha2 = "*"
tantivy = "*"
thiserror = "*"
tokio = { version = "*", features = ["macros", "rt-multi-thread", "time"] }
toml = "*"
tracing = "*"
tracing-subscriber = "*"
