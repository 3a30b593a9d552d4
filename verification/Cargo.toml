[package]
name = "devboule_daemon"
version = "0.1.0"
edition = "2021"
publish = false

[dependencies]
portable-pty = "*"
serde = { version = "1", features = ["derive"] }
serde_json = "1"
sha2 = "0.10"
windows-sys = { version = "0.59", features = ["Win32_Foundation", "Win32_Security", "Win32_Storage_FileSystem", "Win32_System_Environment", "Win32_System_IO", "Win32_System_Pipes", "Win32_System_Registry"] }
