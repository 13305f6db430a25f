[package]
name = "app_state"
version = "0.1.0"
edition = "2021"
publish = false

[dependencies]
anyhow = "1"
termimad = "0.30"
