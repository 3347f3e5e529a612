[package]
name = "hugo4os"
version = "0.1.0"
edition = "2021"
publish = false

[dependencies]
crossbeam-queue = "=0.3.14"
spin = "=0.12.3"
pc-keyboard = "=0.9.0"
