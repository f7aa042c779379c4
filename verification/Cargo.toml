[package]
name = "hoard"
version = "0.1.0"
edition = "2021"
publish = false

[dependencies]
owned = "=0.1.0"
thiserror = "=1.0.69"
