[package]
name = "shell_extension"
version = "0.1.0"
edition = "2021"
publish = false

[dependencies]
bytemuck = "1"
lazy_static = "1"
windows = { version = "0.58", features = ["implement", "Win32_Foundation", "Win32_System_Com", "Win32_System_Com_StructuredStorage", "Win32_System_Diagnostics_Debug", "Win32_System_Ole", "Win32_System_Variant", "Win32_UI_Controls", "Win32_UI_Shell", "Win32_UI_Shell_Common", "Win32_UI_Shell_PropertiesSystem"] }
windows-core = "0.58"
