[package]
name = "pixelmap_artnet"
version = "0.1.0"
edition = "2021"
publish = false

[dependencies]
artnet_protocol = "*"
crossbeam-channel = "0.5"
socket2 = { version = "0.5", features = ["all"] }
