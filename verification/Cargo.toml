[package]
name = "vga_console"
version = "0.1.0"
edition = "2021"
publish = false

[dependencies]
bit_field = "0.10"
bitflags = "2"
lazy_static = { version = "1", features = ["spin_no_std"] }
spin = "0.9"
volatile = "0.4"
