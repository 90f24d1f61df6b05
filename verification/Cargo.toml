[package]
name = "synoik_ui"
version = "0.1.0"
edition = "2021"
publish = false

[dependencies]
accesskit = "=0.25.2"
libc = "=0.2.191"
smithay = { version = "*", default-features = false }
