[package]
name = "stack_script"
version = "0.1.0"
edition = "2021"
publish = false

[dependencies]
regex = "1"
either = "1"
lazy_static = "1"

[dev-dependencies]
rand = "0.8"
