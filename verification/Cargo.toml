[package]
name = "batch_impl"
version = "0.9.7"
edition = "2021"
publish = false

[dependencies]
proc-macro2 = "=1.0.107"
quote = "=1.0.47"
syn = { version = "=3.0.9", features = ["full", "extra-traits", "visit"] }
