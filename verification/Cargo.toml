[package]
name = "rustyvm"
version = "0.1.0"
edition = "2021"
publish = false

[dependencies]
memmap2 = "0.9"
rand = "0.9"
clap = { version = "4", features = ["derive"] }
derive_more = { version = "2", features = ["display", "error", "deref"] }
minifb = "*"
tracing = "0.1"
tracing-subscriber = { version = "0.3", features = ["env-filter"] }
tracing-appender = "0.2"
