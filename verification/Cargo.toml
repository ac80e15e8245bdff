[package]
name = "zj_agent_state"
version = "0.1.0"
edition = "2021"
publish = false

[dependencies]
crossterm = "*"
fd-lock = "4"
serde = { version = "1", features = ["derive"] }
serde_json = "1"
terminal-colorsaurus = "*"
zellij-tile = "*"
