[package]
name = "versatilepb_vga"
version = "0.1.0"
edition = "2021"
publish = false

[dependencies]
embedded-graphics = "0.6.2"
spin = "0.5"
