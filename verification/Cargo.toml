[package]
name = "btern_translator"
version = "0.1.0"
edition = "2021"
publish = false

[dependencies]
extism-pdk = "1"
eyre = "0.6"
num-bigint = "0.4"
