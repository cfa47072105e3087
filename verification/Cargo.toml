[package]
name = "mqtt_panel"
version = "0.1.0"
edition = "2021"
publish = false

[dependencies]
critical-section = "=1.2.0"
display-interface-spi = "=0.5.0"
embassy-executor = "=0.7.0"
embassy-futures = "=0.1.2"
embassy-net = { version = "=0.6.0", features = ["tcp", "dhcpv4", "medium-ethernet", "proto-ipv4"] }
embassy-sync = "=0.6.2"
embassy-time = "=0.4.0"
embedded-graphics = "=0.8.2"
embedded-hal-bus = "=0.3.0"
esp-alloc = "=0.6.0"
esp-hal = { version = "=0.23.1", features = ["esp32c6"] }
esp-hal-embassy = { version = "=0.6.0", features = ["esp32c6"] }
esp-hal-smartled = "*"
esp-println = { version = "=0.13.1", features = ["esp32c6"] }
esp-wifi = { version = "=0.12.0", features = ["esp32c6", "wifi"] }
heapless = { version = "=0.9.3", features = ["serde"] }
lazy_static = { version = "=1.5.1", features = ["spin_no_std"] }
profont = "=0.7.0"
rust-mqtt = { version = "=0.3.1", default-features = false }
serde = { version = "=1.0.229", default-features = false, features = ["derive"] }
serde-json-core = "=0.6.0"
smart-leds = "=0.4.0"
static_cell = "=2.1.1"
weact-studio-epd = "=0.1.3"
