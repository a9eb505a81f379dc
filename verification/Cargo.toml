[package]
name = "flare"
version = "0.1.0"
edition = "2021"
publish = false

[dependencies]
gettext-rs = { version = "=0.7.7", features = ["gettext-system"] }
regex = "=1.13.1"
url = "=2.5.8"
phonenumber = "=0.3.10"
rand = "=0.9.5"
uuid = "=1.29.0"
