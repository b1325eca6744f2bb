[package]
name = "ludex"
version = "0.1.0"
edition = "2021"
publish = false

[dependencies]
rustix = { version = "=1.1.6", features = ["time", "process"] }
pelite = "=0.10.0"
freedesktop-desktop-entry = { version = "=0.7.19", default-features = false }
tokio = { version = "=1.54.1", features = ["rt-multi-thread", "macros", "fs", "io-util", "sync", "time", "signal", "process"] }
anyhow = "=1.0.104"
serde = { version = "=1.0.229", features = ["derive"] }
serde_json = "=1.0.154"
time = { version = "=0.3.55", features = ["formatting"] }
tracing = "=0.1.44"
tracing-subscriber = { version = "=0.3.23", features = ["env-filter"] }
notify = "=8.2.1"
zbus = { version = "=5.19.0", default-features = false, features = ["tokio"] }
futures-util = "=0.3.34"
wayland-client = "=0.31.15"
wayland-protocols = { version = "=0.32.13", features = ["client", "staging"] }
sqlx = { version = "=0.8.6", default-features = false, features = ["sqlite", "runtime-tokio"] }
