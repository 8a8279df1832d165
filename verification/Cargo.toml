[package]
name = "hops"
version = "0.1.0"
edition = "2021"
publish = false

[dependencies]
url = "2"
globset = "0.4"
regex = "1"
serde = { version = "1", features = ["derive"] }
serde_json = "1"
winreg = "*"
windows-sys = { version = "*", features = ["Win32_Foundation", "Win32_System_Diagnostics_ToolHelp", "Win32_System_Threading"] }
