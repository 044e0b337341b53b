[package]
name = "angry_surgeon"
version = "0.1.0"
edition = "2021"
publish = false

[dependencies]
heapless = "0.8"
midly = "0.5"
tinyrand = "0.5"
serde = { version = "1", features = ["derive"] }
serde_json = "1"
embedded-io = "0.6"
bytemuck = "1"
micromath = "2"
color-eyre = "0.6"
crossterm = "0.28"
ratatui = "0.29"
cpal = "0.15"
