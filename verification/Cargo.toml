[package]
name = "razer-battery-report"
version = "0.1.0"
edition = "2021"
publish = false

[dependencies]
resvg = "*"
tray-icon = "*"
tao = "*"
hidapi = "*"
winreg = "*"
log = "*"
parking_lot = "*"
