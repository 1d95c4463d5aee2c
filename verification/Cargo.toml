[package]
name = "redlight"
version = "0.1.0"
edition = "2021"
publish = false

[dependencies]
serde = { version = "1", features = ["derive"] }
serde_json = "1"
dirs = "5"
winreg = "0.52"
native-windows-gui = "1"
windows = { version = "0.58", features = ["Win32_Foundation", "Win32_UI_Magnification", "Win32_UI_WindowsAndMessaging", "Win32_UI_Input_KeyboardAndMouse", "Win32_System_LibraryLoader", "Win32_Graphics_Gdi"] }
