[package]
name = "world_sync"
version = "0.1.0"
edition = "2021"
publish = false

[dependencies]
rmpv = "1"
ws = "0.9"
rocket = "0.5"
rand = "0.8"
