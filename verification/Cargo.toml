[package]
name = "stratmat"
version = "0.1.0"
edition = "2021"
publish = false

[dependencies]
fixedbitset = "=0.5.7"
serde = { version = "=1.0.229", features = ["derive"] }
serde_json = "=1.0.154"
clap = { version = "=4.6.7", features = ["derive"] }
eyre = "=0.6.14"
tracing = "=0.1.44"
tracing-subscriber = "=0.3.23"
prettytable = { version = "=0.10.0", default-features = false }
bevy = { version = "=0.15.3", default-features = false, features = ["bevy_asset"] }
