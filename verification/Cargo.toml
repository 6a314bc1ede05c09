[package]
name = "echo_pedal"
version = "0.1.0"
edition = "2021"
publish = false

[dependencies]
cortex-m = "=0.7.10"
cortex-m-rt = "=0.6.15"
embedded-hal = "=0.2.7"
panic-itm = "=0.4.2"
stm32f407g-disc = "=0.4.1"
stm32f4xx-hal = { version = "=0.9.0", features = ["stm32f407", "rt"] }

[dev-dependencies]
wm8731 = "=0.1.0"
