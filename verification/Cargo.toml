[package]
name = "playfruit"
version = "0.1.7"
edition = "2021"
publish = false

[dependencies]
crossbeam-channel = "0.5"
serde = { version = "1", features = ["derive"] }
serde_json = "1"
tao = "*"
tokio = { version = "1", features = ["rt", "rt-multi-thread", "time", "macros", "signal", "sync"] }
tracing = "0.1"
tracing-subscriber = { version = "0.3", features = ["env-filter"] }
tray-icon = "*"
wasapi = "*"
windows = { version = "*", features = ["Win32_Media_Audio", "Win32_Media_Audio_Endpoints", "Win32_System_Com"] }
