[package]
name = "move-binary-format"
version = "0.1.0"
edition = "2021"
publish = false

[dependencies]
hashbrown = "=0.17.1"
move-core-types = "=0.0.3"
