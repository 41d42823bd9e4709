[package]
name = "crafty_os"
version = "0.1.0"
edition = "2021"
publish = false

[dependencies]
linked_list_allocator = "=0.10.6"
x86_64 = { version = "=0.15.5", default-features = false, features = ["instructions"] }
spin = "=0.12.3"
lazy_static = "=1.5.1"
volatile = "=0.4.6"
pic8259 = "=0.11.0"
pc-keyboard = "=0.9.0"
ps2-mouse = "=0.1.4"
conquer-once = "=0.4.0"
crossbeam-queue = { version = "=0.3.14", default-features = false, features = ["alloc"] }
futures-util = { version = "=0.3.34", default-features = false, features = ["alloc"] }
uefi = "=0.41.0"
log = "=0.4.35"
bitflags = "=1.3.2"
anyhow = "=1.0.104"
cargo_metadata = "=0.23.1"
fatfs = "=0.3.6"
fscommon = "=0.1.1"
