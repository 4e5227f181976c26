[package]
name = "parsely"
version = "0.1.0"
edition = "2021"
publish = false

[dependencies]
anyhow = "1"
bits-io = "*"
darling = "0.20"
paste = "1"
proc-macro-crate = "3"
proc-macro2 = "1"
quote = "1"
syn = { version = "2", features = ["full", "extra-traits"] }
