[package]
name = "portscope"
version = "0.1.0"
edition = "2021"
publish = false

[dependencies]
windows = { version = "0.52", features = ["Win32_Foundation", "Win32_NetworkManagement_IpHelper", "Win32_System_ProcessStatus", "Win32_System_Threading", "Win32_Networking_WinSock"] }
