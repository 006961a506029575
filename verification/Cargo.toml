[package]
name = "downloads_organizer"
version = "0.1.0"
edition = "2021"
publish = false

[dependencies]
chrono = "*"
dirs = "*"
notify = "*"
notify-rust = "*"
sysinfo = "*"
