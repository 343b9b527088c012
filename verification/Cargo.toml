[package]
name = "capsule"
version = "0.1.0"
edition = "2021"
publish = false

[dependencies]
capnp = "=0.27.2"
clap = "=2.34.0"
env_logger = "=0.11.11"
log = "=0.4.34"
widestring = "*"
