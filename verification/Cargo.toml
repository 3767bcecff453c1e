[package]
name = "kool"
version = "0.1.0"
edition = "2021"
publish = false

[dependencies]
chrono = "=0.4.45"
crossbeam = "=0.8.5"
clap = { version = "=4.6.7", features = ["derive"] }
serde = { version = "1", features = ["derive"] }
postcard = { version = "1", features = ["alloc"] }
xdg = "*"
