[package]
name = "mini_env"
version = "0.1.0"
edition = "2021"
publish = false

[dependencies]
clap = { version = "3.2", features = ["derive"] }
native-windows-gui = "1.0.13"
winreg = "0.10"
