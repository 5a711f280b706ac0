[package]
name = "epd_watch"
version = "0.1.0"
edition = "2021"
publish = false

[dependencies]
chrono = { version = "=0.4.45", default-features = false }
circular-buffer = "=1.2.1"
ds323x = "=0.7.0"
embedded-hal = "=1.0.0"
heapless = "=0.8.0"
cortex-m = "=0.7.10"
cortex-m-rt = "=0.7.7"
rtt-target = "=0.6.2"
nrf52832-hal = "=0.19.0"
nrf52832-pac = "=0.12.2"
