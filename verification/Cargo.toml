[package]
name = "rustc_fami"
version = "0.1.0"
edition = "2021"
publish = false

[dependencies]
bitfield = "0.14"
rodio = { version = "0.17", default-features = false }
