[package]
name = "ws_uring"
version = "0.1.0"
edition = "2021"
publish = false

[dependencies]
bytes = "*"
data-encoding = "*"
httparse = "*"
io-uring = "*"
libc = "*"
os_socketaddr = "*"
rand = "*"
url = "*"
