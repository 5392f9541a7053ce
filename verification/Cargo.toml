[package]
name = "avm1_compile"
version = "0.1.0"
edition = "2021"
publish = false

[dependencies]
avm1-parser = "*"
avm1-types = "*"
