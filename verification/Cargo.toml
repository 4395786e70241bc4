[package]
name = "focus_capture"
version = "1.0.0"
edition = "2021"
publish = false

[dependencies]
serde_json = "1"
x11rb = "0.13"
pipewire = "0.8"
windows-core = "0.61"

[dependencies.windows]
version = "0.61"
features = [
    "Win32_Foundation",
    "Win32_Media_Audio",
    "Win32_Media_Multimedia",
    "Win32_Security",
    "Win32_System_Com",
    "Win32_System_Com_StructuredStorage",
    "Win32_System_Diagnostics_Debug",
    "Win32_System_Kernel",
    "Win32_System_LibraryLoader",
    "Win32_System_Threading",
    "Win32_System_Variant",
    "Win32_UI_WindowsAndMessaging",
]
