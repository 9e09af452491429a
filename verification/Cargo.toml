[package]
name = "jukebox"
version = "0.1.0"
edition = "2021"
publish = false

[dependencies]
base64 = "0.13"
sha2 = "0.10"
rand = "0.8"
serde_json = "1"
crossterm = "0.25"
tui = "0.19"
rodio = "0.17"
id3 = "1"
home = "0.5"
embedded-websocket = "0.8"
