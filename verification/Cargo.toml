[package]
name = "pixel_canvas"
version = "0.1.0"
edition = "2021"
publish = false

[dependencies]
bytes = "*"
futures-util = "*"
tokio = { version = "*", features = ["rt-multi-thread", "macros", "net", "signal", "sync", "time"] }
tokio-tungstenite = "*"
tungstenite = "*"
