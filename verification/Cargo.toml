[package]
name = "kentos"
version = "0.1.0"
edition = "2021"
publish = false

[dependencies]
x86_64 = { version = "0.15", default-features = false, features = ["instructions"] }
bootloader = "0.9"
volatile = "0.2"
spin = "0.9"
lazy_static = { version = "1", features = ["spin_no_std"] }
pic8259 = "0.11"
linked_list_allocator = "0.10"
