[package]
name = "timemark"
version = "0.1.0"
edition = "2021"
publish = false

[dependencies]
log = "=0.3.9"
pad = "=0.1.6"
time = "=0.1.45"

[dev-dependencies]
allan = "=0.4.1"
