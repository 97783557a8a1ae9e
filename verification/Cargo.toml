[package]
name = "gpio_display"
version = "0.1.0"
edition = "2021"
publish = false

[dependencies]
gpiocdev = "*"
gpiod = "*"
rand = "0.9"
