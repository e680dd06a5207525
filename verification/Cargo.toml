[package]
name = "ying_profiler"
version = "0.2.0"
edition = "2021"
publish = false

[dependencies]
backtrace = "0.3"
chrono = "0.4"
coarsetime = "0.1"
inferno = { version = "0.11", default-features = false }
log = "0.4"
once_cell = "1"
regex = "1"
wyhash = "0.5"
