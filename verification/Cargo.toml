[package]
name = "pcm_player"
version = "0.1.0"
edition = "2021"
publish = false

[dependencies]
embedded-hal = "0.2"
embedded-sdmmc = "0.3"
nb = "0.1"
cortex-m = "0.7"
cortex-m-semihosting = "0.5"
