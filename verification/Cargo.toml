[package]
name = "niri_agent"
version = "0.1.0"
edition = "2021"
publish = false

[dependencies]
miette = "*"
niri-ipc = "*"
