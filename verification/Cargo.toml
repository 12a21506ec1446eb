[package]
name = "newscache"
version = "0.1.0"
edition = "2021"
publish = false

[dependencies]
json = "0.12"
hyper = { version = "0.14", features = ["server", "http1", "tcp"] }
tokio = { version = "1", features = ["rt-multi-thread", "macros", "time"] }
reqwest = { version = "0.11", default-features = false, features = ["blocking"] }
