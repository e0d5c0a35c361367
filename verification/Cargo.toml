[package]
name = "orient"
version = "0.1.0"
edition = "2021"
publish = false

[dependencies]
accelerometer = "0.12"
cortex-m = "0.7"
cortex-m-semihosting = "0.3"
lsm303agr = "0.2"
num-traits = { version = "0.2", default-features = false, features = ["libm"] }
stm32f3xx-hal = { version = "0.9", features = ["stm32f303xc"] }
switch-hal = "0.4"
systick-monotonic = "1.0"
