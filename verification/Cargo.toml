[package]
name = "sunrise_core"
version = "0.1.0"
edition = "2021"
publish = false

[dependencies]
bit_field = "=0.10.3"
spin = "=0.9.9"
multiboot2 = "=0.28.0"
xmas-elf = "*"
