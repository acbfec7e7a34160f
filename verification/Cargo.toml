[package]
name = "egreet"
version = "0.1.0"
edition = "2021"
publish = false

[dependencies]
regex = "1"
shlex = "1"
glob = "0.3"
pwd = "1"
log = "0.4"
const_format = "0.2"
