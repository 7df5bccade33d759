[package]
name = "flightpanel"
version = "0.1.0"
edition = "2021"
publish = false

[dependencies]
heapless = "=0.8.0"
embassy-time = { version = "=0.5.1", features = ["tick-hz-1_000_000"] }
embassy-sync = "=0.8.0"
embassy-executor = { version = "=0.10.0", features = ["platform-spin", "executor-thread", "trace"] }
embassy-usb = "=0.6.0"
embassy-embedded-hal = "=0.6.0"
embassy-stm32 = { version = "=0.6.0", features = ["stm32f072cb", "time-driver-any"] }
embedded-hal-async = "=1.0.0"
usbd-hid = "=0.10.2"
cortex-m-rt = "=0.7.7"
