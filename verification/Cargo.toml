[package]
name = "mimium_transpiler_bench"
version = "0.1.0"
edition = "2021"
publish = false

[dependencies]
portaudio = "*"
libpd-sys = "*"
mimium-lang = "*"
