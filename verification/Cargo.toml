[package]
name = "libkernel"
version = "0.1.0"
edition = "2021"
publish = false

[dependencies]
spin = "0.9"
aligned = "0.4"
linked_list_allocator = "0.10"
ruspiro-arch-aarch64 = "*"
