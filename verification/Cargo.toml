[package]
name = "ipc_bench"
version = "0.1.0"
edition = "2021"
publish = false

[dependencies]
serde = { version = "1", features = ["derive"] }
serde_json = "1"
socket2 = { version = "0.5", features = ["all"] }
ntapi = "0.4"
winapi = { version = "0.3", features = ["ntdef", "winnt", "ntstatus"] }
windows-sys = { version = "0.59", features = ["Win32_Foundation", "Win32_Storage_FileSystem", "Win32_System_Threading", "Win32_System_Memory", "Win32_System_Pipes", "Win32_System_IO", "Win32_Security"] }
