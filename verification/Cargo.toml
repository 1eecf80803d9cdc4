[package]
name = "chipmunk_tools"
version = "0.1.0"
edition = "2021"
publish = false

[dependencies]
regex = "1"
grep-regex = "*"
grep-searcher = "*"
buf_redux = "*"
tokio-util = "*"
thiserror = "*"
clap = { version = "4", features = ["derive"] }
anyhow = "1"
