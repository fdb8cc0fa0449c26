[package]
name = "a-blog-out-of-deep-space"
version = "0.1.0"
edition = "2021"
publish = false

[dependencies]
axum = "=0.8.9"
brotli = { version = "=9.0.0", features = ["portable-float"] }
flate2 = "=1.1.10"
flume = "=0.12.0"
futures-util = "=0.3.34"
pin-project-lite = "=0.2.17"
tokio = { version = "=1.54.1", features = ["macros", "net", "rt-multi-thread"] }
tower = { version = "=0.5.3", features = ["limit", "load-shed", "timeout", "util"] }
tracing = "=0.1.44"
tracing-subscriber = { version = "=0.3.23", features = ["env-filter"] }
twox-hash = "=2.1.5"
walkdir = "=2.5.0"
