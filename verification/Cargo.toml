[package]
name = "presence_reporter"
version = "0.1.0"
edition = "2021"
publish = false

[dependencies]
chrono = "0.4"
dbus = { version = "0.9", features = ["vendored"] }
reqwest = { version = "0.12", features = ["json"] }
serde = { version = "1", features = ["derive"] }
thiserror = "1"
tokio = { version = "1", features = ["macros", "rt-multi-thread", "sync", "time"] }
x11rb = "0.13"
