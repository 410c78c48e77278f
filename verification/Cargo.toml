[package]
name = "audio_bridge"
version = "0.1.0"
edition = "2021"
publish = false

[dependencies]
cpal = "=0.15.3"
rodio = { version = "=0.21.1", default-features = false, features = ["wav"] }
serialport = { version = "=4.10.1", default-features = false }
