[package]
name = "csnel"
version = "0.1.0"
edition = "2021"
publish = false

[dependencies]
x86_64 = { version = "0.15", default-features = false, features = ["instructions"] }
spin = "0.9"
lazy_static = "1"
pc-keyboard = "*"
pic8259_simple = "*"
