[package]
name = "mrpack_install"
version = "0.1.0"
edition = "2021"
publish = false

[dependencies]
home = "*"
json = "0.12"
sha2 = "0.10"
zip = { version = "0.6", default-features = false, features = ["deflate"] }
reqwest = { version = "*", features = ["blocking"] }
