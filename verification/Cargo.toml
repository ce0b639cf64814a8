[package]
name = "bite_screenshot"
version = "0.1.0"
edition = "2021"
publish = false

[dependencies]
anyhow = "=1.0.104"
chrono = "=0.4.45"
directories = "=5.0.1"
image = { version = "=0.25.10", default-features = false, features = ["png"] }
open = "=5.4.5"
serde = { version = "=1.0.229", features = ["derive"] }
toml = "=0.8.23"
windows = { version = "=0.58.0", features = ["Win32_Foundation", "Win32_Devices_Display", "Win32_Graphics_Dwm", "Win32_Graphics_Gdi", "Win32_System_Com", "Win32_System_LibraryLoader", "Win32_System_ProcessStatus", "Win32_System_Threading", "Win32_UI_Input_KeyboardAndMouse", "Win32_UI_Shell", "Win32_UI_WindowsAndMessaging"] }
windows-capture = "1"
