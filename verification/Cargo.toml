[package]
name = "igor"
version = "0.1.0"
edition = "2021"
publish = false

[dependencies]
ringbuf = "0.2"
hound = "3"
portaudio = "0.7"
three = { version = "0.3", default-features = false }
