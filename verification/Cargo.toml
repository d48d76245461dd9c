[package]
name = "temp-pair-enocean"
version = "0.1.0"
edition = "2021"
publish = false

[dependencies]
cortex-m = "*"
cortex-m-rt = "*"
critical-section = "*"
stm32f7 = { version = "*", features = ["stm32f745", "rt"] }
vcell = "*"
