[package]
name = "httpecho"
version = "0.1.0"
edition = "2021"
publish = false

[dependencies]
flate2 = "*"
brotli = "*"
zstd = "*"
url = "*"
clap = { version = "*", features = ["derive"] }
colored = "*"
http = "*"
http-body = "*"
http-body-util = "*"
hyper = { version = "*", features = ["server", "client", "http1"] }
hyper-util = { version = "*", features = ["tokio"] }
tokio = { version = "*", features = ["rt-multi-thread", "macros", "net"] }
hickory-resolver = "*"
