[package]
name = "by_env"
version = "0.1.0"
edition = "2021"
publish = false

[dependencies]
convert_case = "=0.8.0"
darling = "=0.20.11"
proc-macro2 = "=1.0.107"
quote = "=1.0.47"
syn = { version = "=2.0.119", features = ["full", "extra-traits"] }
