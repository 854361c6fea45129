[package]
name = "rust_trace_demo"
version = "0.1.0"
edition = "2021"
publish = false

[dependencies]
failure = "0.1"
sentry = { version = "0.18", default-features = false, features = ["with_failure", "with_client_implementation"] }
sugar = "*"
tracing = "0.1"
