[package]
name = "jackdull"
version = "0.1.0"
edition = "2021"
publish = false

[dependencies]
crossterm = "0.25"
eyre = "0.6"
log = "0.4"
serde = { version = "1", features = ["derive"] }
serde_json = "1"
tokio = { version = "1", features = ["macros", "rt-multi-thread", "sync", "time"] }
tui = "0.19"
tui-logger = "0.8"
