[package]
name = "winisland"
version = "0.1.0"
edition = "2021"
publish = false

[dependencies]
serde = { version = "1", features = ["derive"] }
serde_json = "1"
ureq = { version = "2", features = ["json"] }
dirs = "5"
libloading = "0.8"
once_cell = "1"
open = "5"
bytemuck = "1"
