[package]
name = "rdx_hal"
version = "0.1.0"
edition = "2021"
publish = false

[dependencies]
embedded-hal = "=1.0.0"
embedded-hal-bus = "=0.3.0"
futures = "=0.3.34"
lcd-lcm1602-i2c = "=0.3.0"
lcd-menu = "=0.1.0"
pwm-pca9685 = "=1.0.0"
rotary-encoder-embedded = "=0.5.0"
rppal = { version = "=0.22.1", features = ["hal"] }
syact = "=0.15.0"
