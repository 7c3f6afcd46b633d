[package]
name = "filetest"
version = "0.1.0"
edition = "2021"
publish = false

[dependencies]
glob = "0.3"
proc-macro-error = "1"
proc-macro2 = "1"
quote = "1"
syn = { version = "2", features = ["full"] }
unicode-ident = "1"
