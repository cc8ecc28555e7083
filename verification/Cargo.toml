[package]
name = "vigenere_udp"
version = "0.1.0"
edition = "2021"
publish = false

[dependencies]
argh = "0.1"
bincode = "2"
ctrlc = "3"
get_if_addrs = "0.5"
nix = { version = "0.29", features = ["socket", "net"] }
rand = "0.9"
socket2 = "0.5"
tokio = { version = "1", features = ["full"] }
