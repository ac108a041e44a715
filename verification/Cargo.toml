[package]
name = "rsdf"
version = "0.1.0"
edition = "2021"
publish = false

[dependencies]
ab_glyph = "0.2"
arrayvec = "0.7"
float-cmp = "0.9"
itertools = "0.10"
num-traits = "0.2"
png = "0.17"
