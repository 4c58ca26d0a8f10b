[package]
name = "hello_i2c"
version = "0.1.0"
edition = "2021"
publish = false

[dependencies]
chrono = "0.4"
embedded-hal = "0.2"
linux-embedded-hal = "0.3"

[dev-dependencies]
byteorder = "1"
