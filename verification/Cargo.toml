[package]
name = "clap_host"
version = "0.1.0"
edition = "2021"
publish = false

[dependencies]
clap-sys = "=0.5.0"
libloading = "=0.9.0"
cpal = "=0.18.2"
midir = "=0.11.1"
crossbeam-queue = "=0.3.14"
polling = "=3.11.0"
raw-window-handle = "0.6"
windows-sys = { version = "0.61", features = ["Win32_Foundation", "Win32_Graphics_Gdi", "Win32_System_LibraryLoader", "Win32_UI_WindowsAndMessaging"] }
