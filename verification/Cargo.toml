[package]
name = "proto_os"
version = "0.3.0"
edition = "2021"
publish = false

[dependencies]
x86_64 = { version = "0.15", default-features = false, features = ["instructions"] }
spin = "0.9"
volatile = "0.2.6"
lazy_static = { version = "1.4", features = ["spin_no_std"] }
pic8259 = "0.11"
uart_16550 = "0.3"
linked_list_allocator = "0.10"
bootloader = { version = "0.9", features = ["map_physical_memory"] }
