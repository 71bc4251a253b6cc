[package]
name = "procsnipe"
version = "0.1.0"
edition = "2021"
publish = false

[dependencies]
anyhow = "*"
clap = { version = "*", features = ["derive"] }
crossterm = "*"
image = { version = "*", default-features = false, features = ["png"] }
ratatui = "*"
sysinfo = "*"
tray-icon = "*"
