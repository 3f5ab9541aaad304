[package]
name = "servent"
version = "0.1.0"
edition = "2021"
publish = false

[dependencies]
clap = "2"
filetime = "0.2"
rouille = { version = "3", default-features = false }
time = "0.1"
