[package]
name = "initial_setup_pages"
version = "0.1.0"
edition = "2021"
publish = false

[dependencies]
kdl = "6"
itoa = "1"
tokio = { version = "1", features = ["process", "sync"] }
tracing = "0.1"
futures-util = "0.3"
