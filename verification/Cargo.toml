[package]
name = "lumitray"
version = "0.1.0"
edition = "2021"
publish = false

[dependencies]
serde = { version = "1", features = ["derive"] }
toml = "*"
tray-icon-win = "*"
windows-reactor = "*"
windows-animation = "*"
windows = { version = "*", features = ["Win32_Foundation", "Win32_System_Threading", "Win32_UI_HiDpi", "Win32_System_Com", "Win32_UI_Shell", "Win32_Devices_Display", "Win32_Graphics_Gdi", "Win32_Graphics_Dwm", "Win32_UI_WindowsAndMessaging", "Win32_System_Registry"] }
