[package]
name = "speediso"
version = "0.1.0"
edition = "2021"
publish = false

[dependencies]
sha2 = "*"
serde = { version = "1", features = ["derive"] }
serde_json = "1"
thiserror = "*"
clap = { version = "4", features = ["derive"] }
tracing = "*"
tracing-subscriber = "*"
windows-sys = { version = "*", features = ["Win32_Foundation", "Win32_Storage_FileSystem", "Win32_System_IO", "Win32_System_Ioctl", "Win32_System_WindowsProgramming", "Win32_Security"] }
