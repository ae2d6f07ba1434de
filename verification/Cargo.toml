[package]
name = "ethercat_master"
version = "0.1.0"
edition = "2021"
publish = false

[dependencies]
futures = "0.3"
heapless = "0.7"
log = "0.4"
nom = "7"
packed_struct = "0.10"
