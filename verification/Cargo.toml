[package]
name = "symbolication"
version = "0.1.0"
edition = "2021"
publish = false

[dependencies]
actix = "0.7"
apple-crash-report-parser = "=0.6.0"
failure = "0.1"
futures = "0.1"
log = "0.4"
parking_lot = "0.9"
sentry = { version = "0.15", default-features = false, features = ["with_failure"] }
symbolic = { version = "7", features = ["demangle", "minidump", "symcache"] }
tokio = "0.1"
tokio-threadpool = "0.1"
uuid = { version = "0.8", features = ["v4"] }
