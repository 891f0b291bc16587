[package]
name = "nestvim"
version = "0.1.0"
edition = "2021"
publish = false

[dependencies]
ropey = "1"
arboard = "3"
crossterm = { version = "0.27", features = ["event-stream"] }
tokio = { version = "1", features = ["full"] }
futures = "0.3"
clap = { version = "4", features = ["derive"] }
syntect = "5"
thiserror = "1"
atty = "0.2"
tracing = "0.1"
tracing-subscriber = "0.3"
libloading = "0.8"
mlua = { version = "0.9", features = ["lua54", "vendored"] }
quickjs-rusty = "*"
