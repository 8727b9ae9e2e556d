[package]
name = "rriv_datalogger"
version = "0.1.0"
edition = "2021"
publish = false

[dependencies]
serde_json = "1"
modbus-core = "*"
modbus_buffer = "*"
one-wire-bus = "0.1"
format_no_std = "*"
embedded-hal = "0.2"
nb = "1"
ds323x = "0.5"
embedded-sdmmc = "0.6"
usb-device = "0.2"
usbd-serial = "0.1"
