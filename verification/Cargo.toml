[package]
name = "trait_cast_rs"
version = "0.3.0"
edition = "2021"
publish = false

[dependencies]
proc-macro2 = "1"
quote = "1"
syn = { version = "2", features = ["full"] }
thiserror = "1"
toml_edit = "0.22"
tracing = "0.1"
