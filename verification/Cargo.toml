[package]
name = "image2ascii"
version = "0.1.0"
edition = "2021"
publish = false

[dependencies]
image = "0.23"
rand = "0.7"
rusttype = "0.9"
structopt = "0.3"

[dev-dependencies]
tempfile = "3"
