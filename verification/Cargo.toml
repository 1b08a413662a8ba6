[package]
name = "viap"
version = "0.1.0"
edition = "2021"
publish = false

[dependencies]
base64 = "=0.22.1"
minisign-verify = "=0.2.5"
serde = { version = "1", features = ["derive"] }
serde_json = "=1.0.154"
walkdir = "=2.5.0"
dirs = "=7.0.0"
sysinfo = "=0.40.1"
rayon = "=1.12.0"
trash = "=5.2.9"
reqwest = { version = "=0.12.28", default-features = false, features = ["blocking", "rustls-tls"] }
junction = "=2.1.0"
winreg = "=0.56.0"
windows = { version = "=0.58.0", features = ["Win32_Foundation", "Win32_Storage_FileSystem", "Win32_UI_Shell", "Win32_UI_WindowsAndMessaging", "Win32_Graphics_Gdi", "Win32_System_Com"] }
