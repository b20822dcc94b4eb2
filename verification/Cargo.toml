[package]
name = "pico_httpd"
version = "0.1.0"
edition = "2021"
publish = false

[dependencies]
httparse = "=1.10.1"
pio = "=0.3.0"
embedded-hal-async = "=1.0.0"
embedded-io-async = "=0.7.0"
embassy-executor = { version = "=0.10.0", features = ["platform-std", "executor-thread"] }
embassy-net = { version = "=0.9.1", features = ["tcp", "dhcpv4", "medium-ethernet"] }
embassy-rp = { version = "=0.10.0", features = ["rp2040", "time-driver", "critical-section-impl"] }
embassy-time = "=0.5.1"
cyw43 = "=0.7.0"
static_cell = "=2.1.1"
defmt = "=1.2.0"
defmt-rtt = "=1.3.1"
panic-probe = "=1.0.0"
