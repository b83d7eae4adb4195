[package]
name = "java_launcher"
version = "0.1.0"
edition = "2021"
publish = false

[dependencies]
jni = { version = "0.21", features = ["invocation"] }
walkdir = "2"
zip = { version = "0.6", default-features = false, features = ["deflate"] }
dirs = "5"
dunce = "1"
memmap2 = "0.9"
windows-sys = { version = "0.59", features = ["Win32_Foundation", "Win32_UI_WindowsAndMessaging", "Win32_System_LibraryLoader"] }
core-foundation = "0.10"
