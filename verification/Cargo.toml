[package]
name = "onewire_temp"
version = "0.1.0"
edition = "2021"
publish = false

[dependencies]
one-wire-bus = "=0.1.1"
ds18b20 = "=0.1.1"
embedded-hal = "=0.2.7"
esp-idf-hal = "=0.44.1"
