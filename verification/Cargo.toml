[package]
name = "r2e-macros"
version = "0.1.0"
edition = "2021"
publish = false

[dependencies]
cron = "0.12"
syn = { version = "2", features = ["full"] }
quote = "1"
proc-macro2 = "1"
proc-macro-crate = "3"
