[package]
name = "multi-mouse-tool"
version = "0.1.0"
edition = "2021"
publish = false

[dependencies]
serde = { version = "1", features = ["derive"] }
serde_json = "1"
native-windows-gui = "1.0.13"
windows = { version = "0.58", features = ["Win32_Foundation", "Win32_UI_Input", "Win32_UI_WindowsAndMessaging"] }
