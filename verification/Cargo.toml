[package]
name = "kerr"
version = "0.1.0"
edition = "2021"
publish = false

[dependencies]
ambisonic = "0.2"
ggez = "0.5"
rodio = "0.8"
sdl2 = "0.31"
specs = "0.12"
specs-derive = "0.2"
