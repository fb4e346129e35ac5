[package]
name = "fullerene"
version = "0.1.0"
edition = "2021"
publish = false

[dependencies]
goblin = "=0.9.3"
x86_64 = { version = "=0.15.5", default-features = false, features = ["instructions"] }
spin = "=0.9.9"
log = "=0.4.35"
