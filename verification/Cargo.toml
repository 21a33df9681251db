[package]
name = "foobar_dsp_host"
version = "0.1.0"
edition = "2021"
publish = false

[dependencies]
arc-swap = "1"
cpal = "0.15"
symphonia = { version = "0.5", features = ["mp3"] }
