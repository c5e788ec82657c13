[package]
name = "gnunet"
version = "0.1.0"
edition = "2021"
publish = false

[dependencies]
async-std = "1"
bincode = "1"
gnunet-sys = "*"
serde = "1"
