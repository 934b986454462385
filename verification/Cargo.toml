[package]
name = "net_tank"
version = "0.1.0"
edition = "2021"
publish = false

[dependencies]
rusty_time = "0"
local-ip-address = "0"
macroquad = "0.3"
rand = "0.8"
winapi = { version = "0.3", features = ["wincon", "winuser"] }
