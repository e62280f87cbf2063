[package]
name = "tecken"
version = "0.1.0"
edition = "2021"
publish = false

[dependencies]
crossterm = "0.29"
rand = "0.9"
