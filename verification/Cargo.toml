[package]
name = "gnss_test"
version = "0.1.0"
edition = "2021"
publish = false

[dependencies]
bytesize = "*"
colored = "*"
log = "*"
rayon = "*"
rustfft = "*"
structopt = "*"
