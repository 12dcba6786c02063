[package]
name = "roxy_kernel"
version = "0.1.0"
edition = "2021"
publish = false

[dependencies]
heapless = "=0.8.0"
buddy_system_allocator = "=0.11.0"
pc-keyboard = "=0.8.0"
x86_64 = { version = "=0.15.5", default-features = false, features = ["instructions"] }
spin = "=0.9.9"
hashbrown = "=0.15.5"
bitflags = "=2.13.2"
uart_16550 = "=0.9.0"
