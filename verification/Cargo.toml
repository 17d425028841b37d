[package]
name = "ysos"
version = "0.1.0"
edition = "2021"
publish = false

[dependencies]
ahash = "=0.8.12"
chrono = "=0.4.45"
colored = "2"
crossbeam-queue = "=0.3.14"
crossterm = "0.27"
hashbrown = "=0.15.5"
log = "=0.4.35"
pc-keyboard = "=0.9.0"
spin = "=0.12.3"
