[package]
name = "walrus"
version = "0.1.0"
edition = "2021"
publish = false

[dependencies]
id-arena = "2"
failure = "0.1"
gimli = "*"
log = "0.4"
tempfile = "3"
wasmparser = "*"
