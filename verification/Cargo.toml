[package]
name = "notedeck"
version = "0.1.0"
edition = "2021"
publish = false

[dependencies]
base32 = "=0.4.0"
egui = "=0.27.2"
egui_extras = "=0.27.2"
ewebsock = "=0.2.0"
image = { version = "=0.25.10", default-features = false, features = ["jpeg", "png", "webp"] }
nostrdb = "=0.3.4"
poll-promise = "=0.3.0"
serde = { version = "=1.0.229", features = ["derive"] }
serde_json = "=1.0.154"
tokio = { version = "=1.54.1", features = ["macros", "rt-multi-thread"] }
tracing = "=0.1.44"
tracing-appender = "=0.2.5"
tracing-subscriber = { version = "=0.3.23", features = ["env-filter"] }
