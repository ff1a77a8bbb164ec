[package]
name = "tidings"
version = "0.1.0"
edition = "2021"
publish = false

[dependencies]
generational-arena = "0.2"
wyhash = "0.5"
rayon = "1"
