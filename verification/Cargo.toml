[package]
name = "endfield_patch"
version = "0.1.0"
edition = "2021"
publish = false

[dependencies]
anyhow = "=1.0.104"
ilhook = "=2.3.0"
windows = { version = "=0.60.0", features = ["Win32_Foundation", "Win32_System_Console", "Win32_System_SystemServices", "Win32_System_LibraryLoader"] }
