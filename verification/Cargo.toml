[package]
name = "audio_engine"
version = "0.1.0"
edition = "2021"
publish = false

[dependencies]
jni = "0.21"
lazy_static = "1"
