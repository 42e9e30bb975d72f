[package]
name = "sfind"
version = "0.1.0"
edition = "2021"
publish = false

[dependencies]
anyhow = "1"
cfg-if = "1"
clap = { version = "4", features = ["derive"] }
indoc = "2"
regex = "1"
serde = { version = "1", features = ["derive"] }
serde_json = "1"
windows-sys = { version = "*", features = ["Win32_Foundation", "Win32_UI_Shell"] }
xdg = "2"
