[package]
name = "sahne_fs"
version = "0.1.0"
edition = "2021"
publish = false

[dependencies]
byteorder = "1"
metaflac = "0.2"
bincode = "1"
serde = { version = "1", features = ["derive"] }
mlua = { version = "0.9", features = ["lua54", "vendored"] }
