[package]
name = "boba"
version = "0.1.0"
edition = "2021"
publish = false

[dependencies]
anyhow = "=1.0.104"
hashbrown = "=0.17.1"
indexmap = "=2.14.2"
log = "=0.4.34"
pollster = "*"
winit = "=0.28.7"
