[package]
name = "rust_sleigh"
version = "0.1.0"
edition = "2021"
publish = false

[dependencies]
bitvec = "1"
roxmltree = "*"
fxhash = "0.2"
object = "*"
clap = { version = "4", features = ["derive"] }
