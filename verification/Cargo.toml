[package]
name = "display-config"
version = "0.1.0"
edition = "2021"
publish = false

[dependencies]
smallvec = "1"
dpi = "*"
thiserror = "*"
objc2 = "*"
objc2-app-kit = "*"
objc2-core-foundation = "*"
objc2-core-graphics = "*"
windows = { version = "*", features = ["Win32_Devices_Display", "Win32_Foundation", "Win32_Graphics_Gdi", "Win32_System_LibraryLoader", "Win32_UI_HiDpi", "Win32_UI_WindowsAndMessaging"] }
