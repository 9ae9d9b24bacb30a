[package]
name = "lightmount_style"
version = "0.1.0"
edition = "2021"
publish = false

[dependencies]
indexmap = "2"
parking_lot = "0.12"
