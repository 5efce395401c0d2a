[package]
name = "oxide_keys"
version = "0.1.0"
edition = "2021"
publish = false

[dependencies]
rp2040-hal = { version = "=0.12.0", features = ["rt", "critical-section-impl"] }
rp2040-boot2 = "=0.3.0"
cortex-m-rt = "=0.7.7"
embedded-hal = "=1.0.0"
embedded-hal-bus = "=0.3.0"
embedded-graphics = "=0.8.2"
display-interface = "=0.5.0"
display-interface-spi = "=0.5.0"
ili9341 = "=0.6.0"
rotary-encoder-hal = "=0.6.0"
