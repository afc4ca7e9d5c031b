[package]
name = "gamemode_tray"
version = "0.1.0"
edition = "2021"
publish = false

[dependencies]
sysinfo = "*"
dbus = "0.9"
