[package]
name = "framed_server"
version = "0.1.0"
edition = "2021"
publish = false

[dependencies]
mio = "=0.5.1"
crossbeam = "=0.2.12"
threadpool = "=1.8.1"
