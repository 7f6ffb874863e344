[package]
name = "torch"
version = "0.1.0"
edition = "2021"
publish = false

[dependencies]
anyhow = "=1.0.104"
crossterm = "=0.19.0"
libc = "=0.2.191"
num-rational = "=0.3.2"
petgraph = "=0.5.1"
rand = { version = "=0.7.3", features = ["small_rng"] }
sdl2 = { version = "0.34", features = ["ttf"] }
slotmap = "=0.4.3"
term = "=0.6.1"
termios = "=0.3.3"
thiserror = "=1.0.69"
