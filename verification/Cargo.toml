[package]
name = "observer"
version = "0.1.0"
edition = "2021"
publish = false

[dependencies]
log = "=0.4.35"
env_logger = "=0.11.11"
thiserror = "=2.0.21"
uuid = { version = "=1.29.0", features = ["v4"] }
windows-sys = { version = "=0.59.0", features = ["Win32_Foundation", "Win32_System_Console", "Win32_System_Diagnostics_Etw", "Win32_System_Diagnostics_Debug", "Win32_System_Memory", "Win32_System_ProcessStatus", "Win32_System_Threading", "Win32_System_Time"] }
