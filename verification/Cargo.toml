[package]
name = "gpu-info"
version = "0.1.0"
edition = "2021"
publish = false

[dependencies]
ash = "0.38"
bytemuck = "1"
clap = { version = "4", features = ["derive"] }
half = { version = "2", features = ["bytemuck"] }
libc = "0.2"
log = "0.4"
pollster = "0.4"
serde = { version = "1", features = ["derive"] }
serde_json = "1"
thiserror = "2"
wgpu = { version = "30", features = ["serde"] }
windows = { version = "*", features = ["Win32_Foundation", "Win32_Graphics_Dxgi", "Win32_Graphics_Dxgi_Common", "Win32_Graphics_Gdi", "Win32_System_LibraryLoader", "Win32_System_Performance", "Win32_System_SystemInformation", "Win32_UI_ColorSystem"] }
objc2 = "0.6"
objc2-metal = "0.3"
