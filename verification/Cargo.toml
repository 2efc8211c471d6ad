[package]
name = "rustic_audio_tool"
version = "0.1.0"
edition = "2021"
publish = false

[dependencies]
cpal = "*"
hound = "*"
ogg = "*"
opus-rs = "*"
pyo3 = "*"
rustfft = "*"
