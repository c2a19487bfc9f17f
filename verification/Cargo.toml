[package]
name = "event_scheduler"
version = "0.1.0"
edition = "2021"
publish = false

[dependencies]
aead = "=0.5.2"
aes = "=0.8.4"
aes-gcm = "=0.10.3"
ccm = "=0.5.0"
cortex-m = "0.7"
cortex-m-rt = "0.6"
critical-section = { version = "=1.2.0", features = ["std"] }
crypto-common = "=0.1.7"
generic-array = "=0.14.7"
nrf52840-hal = "=0.12.2"
rubble = "=0.0.4"
rubble-nrf5x = { version = "=0.0.4", features = ["52840"] }
usb-device = "0.2"
usbd-serial = "0.1"

[dev-dependencies]
