[package]
name = "led_controller"
version = "0.1.0"
edition = "2021"
publish = false

[dependencies]
embedded-hal = "=0.2.7"
stm32f4xx-hal = { version = "=0.8.3", features = ["stm32f411", "rt"] }
cortex-m = "=0.6.7"
cortex-m-rt = "=0.6.15"
panic-halt = "=0.2.0"
nb = "=0.1.3"
l3gd20 = "=0.3.0"
lsm303dlhc = "=0.2.0"
alloc-cortex-m = "=0.4.4"
