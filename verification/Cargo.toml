[package]
name = "humidity-core"
version = "0.1.0"
edition = "2021"
publish = false

[dependencies]
btleplug = "=0.13.5"
critical-section = "=1.2.0"
crossterm = "=0.29.0"
esp-backtrace = { version = "=0.13.0", features = ["esp32c6", "panic-handler", "println"] }
esp-hal = { version = "=0.19.0", features = ["esp32c6"] }
esp-println = { version = "=0.10.0", features = ["esp32c6", "log"] }
esp-wifi = { version = "=0.7.1", features = ["esp32c6", "ble"] }
format_no_std = "=1.2.0"
fugit = "=0.3.9"
futures = "=0.3.34"
log = "=0.4.34"
tokio = { version = "=1.54.1", features = ["macros", "rt-multi-thread", "time"] }
uuid = "=1.29.0"
