[package]
name = "esphome_api"
version = "0.1.0"
edition = "2021"
publish = false

[dependencies]
convert_case = "*"
anyhow = "*"
async-channel = "*"
async-io = "*"
futures-lite = "*"
log = "*"
smol = "*"
