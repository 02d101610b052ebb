[package]
name = "eventedco"
version = "0.1.0"
edition = "2021"
publish = false

[dependencies]
mio = "=0.4.4"
coroutine = "=0.3.2"
clap = "=1.3.2"
env_logger = "=0.3.5"
log = "=0.3.9"
rand = "=0.3.23"
