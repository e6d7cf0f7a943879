[package]
name = "codex_shell"
version = "0.1.0"
edition = "2021"
publish = false

[dependencies]
regex = "1"
serde = { version = "1", features = ["derive"] }
serde_json = "1"
anyhow = "1"
directories = "*"
eframe = { version = "0.33", default-features = false, features = ["default_fonts", "glow", "x11"] }
windows = { version = "*", features = ["Win32_Foundation", "Win32_UI_WindowsAndMessaging", "Win32_System_Diagnostics_ToolHelp", "Win32_System_Threading", "Win32_UI_Input_KeyboardAndMouse", "Win32_System_Time", "Win32_System_Console"] }
