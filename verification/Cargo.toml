[package]
name = "vfd_dashboard"
version = "0.1.0"
edition = "2021"
publish = false

[dependencies]
heapless = "=0.8.0"
serde = { version = "=1.0.229", default-features = false, features = ["derive"] }
serde-json-core = "=0.6.0"
reqwless = "=0.12.1"
log = "=0.4.34"
static_cell = "=2.1.1"
cu40026 = "=0.1.1"
embassy-executor = "=0.6.3"
embassy-net = { version = "=0.4.0", features = ["tcp", "dns", "dhcpv4", "proto-ipv4", "medium-ethernet"] }
embassy-time = "=0.3.2"
esp-alloc = "=0.5.0"
esp-backtrace = { version = "=0.14.2", features = ["esp32c6", "panic-handler", "println"] }
esp-hal = { version = "=0.21.1", features = ["esp32c6"] }
esp-hal-embassy = { version = "=0.4.0", features = ["esp32c6"] }
esp-println = { version = "=0.12.0", features = ["esp32c6", "log"] }
esp-wifi = { version = "=0.10.1", features = ["esp32c6", "wifi", "async", "embassy-net"] }
