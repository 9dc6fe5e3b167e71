[package]
name = "lite-strtab"
version = "0.1.0"
edition = "2021"
publish = false

[dependencies]
allocator-api2 = "0.2"
thiserror = "2"
zstd = "0.13"
