[package]
name = "clearlane"
version = "0.1.0"
edition = "2021"
publish = false

[dependencies]
adblock = "*"
url = "2"
base64 = "0.22"
rusqlite = "*"
windows-sys = { version = "0.59", features = ["Win32_Foundation", "Win32_Graphics_Gdi", "Win32_System_LibraryLoader", "Win32_UI_HiDpi", "Win32_UI_Input_KeyboardAndMouse", "Win32_UI_Shell", "Win32_UI_WindowsAndMessaging"] }
cef = "*"
