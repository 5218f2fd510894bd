[package]
name = "ar2300"
version = "0.1.0"
edition = "2021"
publish = false

[dependencies]
byteorder = "1"
ctrlc = "3"
libusb1-sys = "*"
rusb = "*"
simple-error = "*"
