[package]
name = "airuntime"
version = "0.1.0"
edition = "2021"
publish = false

[dependencies]
anyhow = "1"
cxx = "1"
log = "0.4"
memmap2 = "0.9"
prost = "0.12"
thiserror = "1"
