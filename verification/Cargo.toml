[package]
name = "avian_pickup"
version = "0.1.0"
edition = "2021"
publish = false
