[package]
name = "seglcd"
version = "0.1.0"
edition = "2021"
publish = false

[dependencies]
cortex-m = { version = "=0.7.10", features = ["critical-section-single-core"] }
cortex-m-rt = "=0.7.7"
defmt = "=1.2.0"
defmt-rtt = "=1.3.1"
embassy-executor = "=0.10.0"
embassy-stm32 = { version = "=0.6.0", features = ["defmt", "stm32wb55rg", "time-driver-any", "memory-x", "executor-thread"] }
embassy-time = { version = "=0.5.1", features = ["defmt"] }
panic-probe = { version = "=1.0.0", features = ["print-defmt"] }
