[package]
name = "tailer"
version = "0.1.0"
edition = "2021"
publish = false

[dependencies]
winapi = { version = "0.3", features = ["consoleapi", "wincon", "processenv", "winbase"] }
