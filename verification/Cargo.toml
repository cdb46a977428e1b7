[package]
name = "atm"
version = "0.4.0"
edition = "2021"
publish = false

[dependencies]
clap = "2"
flate2 = "1"
humansize = "1"
itertools = "*"
pbr = "1"
structopt = "0.3"
tar = "0.4"
thiserror = "1"
