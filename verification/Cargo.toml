[package]
name = "windows_tray"
version = "0.1.0"
edition = "2021"
publish = false

[dependencies]
png = "0.17"
windows-sys = { version = "0.59", features = ["Win32_Foundation", "Win32_Graphics_Gdi", "Win32_System_LibraryLoader", "Win32_UI_Shell", "Win32_UI_WindowsAndMessaging"] }
