[package]
name = "rinex_epoch"
version = "0.1.0"
edition = "2021"
publish = false

[dependencies]
hifitime = "3.8"
thiserror = "1"
