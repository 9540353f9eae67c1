[package]
name = "asyncrun"
version = "0.1.0"
edition = "2021"
publish = false

[dependencies]
io-uring = "*"
epoll = "*"
