[package]
name = "rdp"
version = "0.1.0"
edition = "2021"
publish = false

[dependencies]
bitflags = "=2.13.2"
flume = "=0.11.1"
windows = { version = "=0.58.0", features = ["Win32_Networking_WinSock"] }
