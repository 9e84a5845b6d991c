[package]
name = "portkill"
version = "0.1.0"
edition = "2021"
publish = false

[dependencies]
clap = { version = "4", features = ["derive"] }
colored = "*"
comfy-table = "*"
libc = "0.2"
serde_json = { version = "1", features = ["preserve_order"] }
sysinfo = "0.30"
windows-sys = { version = "0.59", features = ["Win32_Foundation", "Win32_System_Threading"] }
