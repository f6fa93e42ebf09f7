[package]
name = "simgen"
version = "0.1.0"
edition = "2021"
publish = false

[dependencies]
rand = "0.8.5"
jni = "0.21.1"
limbo_core = "*"
