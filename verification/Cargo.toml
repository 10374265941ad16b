[package]
name = "terminal_gameboy"
version = "0.1.0"
edition = "2021"
publish = false

[dependencies]
crossterm = "0.28"
gameboy_core = "0.3"
libc = "0.2"
windows-sys = { version = "0.59", features = ["Win32_Networking_WinSock"] }
