[package]
name = "rustmq"
version = "0.1.0"
edition = "2021"
publish = false

[dependencies]
byteorder = "1"
rand = "0.8"
log = "0.4"
getopts = "0.2"
term = "0.7"
url = "2"
openssl = "0.10"
