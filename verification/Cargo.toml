[package]
name = "bookos-store"
version = "0.1.0"
edition = "2021"
publish = false

[dependencies]
base64 = "=0.22.1"
dirs = "=6.0.0"
gtk = "0.18"
once_cell = "=1.21.4"
serde_json = "=1.0.154"
tauri = { version = "2", default-features = false, features = ["dynamic-acl", "wry"] }
tauri-plugin-dialog = "2"
tauri-plugin-fs = "2"
