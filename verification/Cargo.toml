[package]
name = "chitin"
version = "0.1.0"
edition = "2021"
publish = false

[dependencies]
regex = "1"
Inflector = "0.11"
syn = { version = "1", features = ["full"] }
quote = "1"
proc-macro2 = "1"
