[package]
name = "cube_timer"
version = "0.1.0"
edition = "2021"
publish = false

[dependencies]
heapless = "0.8"
embedded-sdmmc = "*"
embedded-hal = "1"
adxl345-eh-driver = "*"
