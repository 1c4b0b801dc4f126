[package]
name = "turret_link"
version = "0.1.0"
edition = "2021"
publish = false

[dependencies]
postcard-cobs = "*"
cobs = "*"
serde = { version = "1", default-features = false, features = ["derive"] }
serde_cbor = "0.11"
serde-json-core = "*"
cortex-m = "*"
cortex-m-rtic = "*"
dwt-systick-monotonic = "*"
panic-rtt-target = "*"
rtt-target = "*"
stm32f4xx-hal = { version = "*", features = ["stm32f407"] }
