[package]
name = "rmk_core"
version = "0.1.0"
edition = "2021"
publish = false

[dependencies]
embassy-sync = "*"
embassy-futures = "*"
critical-section = { version = "*", features = ["std"] }
embedded-hal = "*"
embedded-hal-async = "*"
futures = "*"
proc-macro2 = "*"
quote = "*"
syn = "*"
