[package]
name = "epar"
version = "0.1.0"
edition = "2021"
publish = false

[dependencies]
macroquad = "0.4"
rand = "0.8"
soloud = "1"
thiserror = "1"
