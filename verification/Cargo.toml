[package]
name = "rosu_ffi"
version = "0.1.0"
edition = "2021"
publish = false

[dependencies]
rosu-mods = { version = "*", features = ["serde"] }
serde = "*"
serde_json = "*"
rosu-pp = "*"
interoptopus = "0.14"
