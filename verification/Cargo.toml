[package]
name = "faster-chant"
version = "0.1.0"
edition = "2021"
publish = false

[dependencies]
anyhow = "=1.0.104"
chrono = "=0.4.45"
dirs = "=5.0.1"
env_logger = "=0.11.11"
image = { version = "=0.25.10", default-features = false }
log = "=0.4.35"
pinyin = "0.10"
serde = { version = "=1.0.229", features = ["derive"] }
serde_json = "=1.0.154"
windows = { version = "=0.58.0", features = ["Win32_Foundation", "Win32_UI_Input_KeyboardAndMouse", "Win32_System_Ole", "Win32_System_Memory", "Win32_System_DataExchange", "Win32_Graphics_Gdi", "Win32_UI_WindowsAndMessaging", "Win32_System_LibraryLoader", "Win32_UI_Shell", "Globalization", "Graphics_Imaging", "Media_Ocr", "Storage_Streams", "Foundation_Collections"] }
