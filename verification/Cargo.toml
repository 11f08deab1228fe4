[package]
name = "mini_substrate"
version = "0.1.0"
edition = "2021"
publish = false

[dependencies]
parity-scale-codec = { version = "3", features = ["derive"] }
num = "0.4"
syn = { version = "2", features = ["full"] }
quote = "1"
proc-macro2 = "1"
Inflector = "0.11"
