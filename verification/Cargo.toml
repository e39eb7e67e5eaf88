[package]
name = "capslock_forge"
version = "0.1.0"
edition = "2021"
publish = false

[dependencies]
serde_json = "*"
yaml-rust2 = "*"
rust-ini = "*"
sys-locale = "*"
