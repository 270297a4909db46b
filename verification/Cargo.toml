[package]
name = "light_server"
version = "0.1.0"
edition = "2021"
publish = false

[dependencies]
mime_guess = "*"
bytes = "*"
http-body-util = "*"
hyper = { version = "*", features = ["http1", "server"] }
hyper-util = { version = "*", features = ["tokio"] }
tokio = { version = "*", features = ["rt-multi-thread", "net", "io-util", "macros", "time"] }
chrono = "*"
