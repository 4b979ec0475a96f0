[package]
name = "rxinu"
version = "0.1.0"
edition = "2021"
publish = false

[dependencies]
linked_list_allocator = "=0.10.6"
multiboot2 = "=0.28.0"
os_bootinfo = "=0.2.1"
spin = "=0.12.3"
x86 = "=0.52.0"
