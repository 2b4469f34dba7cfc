[package]
name = "kteach"
version = "0.1.0"
edition = "2021"
publish = false

[dependencies]
wmidi = "4"
ringbuf = "0.2"
midir = "0.7"
cpal = "0.13"
rb = "0.3"
symphonia = "0.2"
time = "0.1"
