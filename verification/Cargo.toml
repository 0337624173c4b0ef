[package]
name = "lobster"
version = "0.1.0"
edition = "2021"
publish = false

[dependencies]
x86_64 = { version = "0.14", default-features = false, features = ["instructions"] }
trees = "0.4"
bootloader = { version = "0.9", features = ["map_physical_memory"] }
spin = "0.9"
conquer-once = { version = "*", default-features = false }
lazy_static = "1"
pic8259 = "0.10"
volatile = "0.2"
