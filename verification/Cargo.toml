[package]
name = "httimple"
version = "0.1.0"
edition = "2021"
publish = false

[dependencies]
bitreader = "=0.3.11"
hpack_codec = "=0.1.1"
mio = "=0.6.23"
rustls = "=0.19.1"
tokio-io = "=0.1.13"
tokio-proto = "=0.1.1"
bytes = "=0.4.12"
