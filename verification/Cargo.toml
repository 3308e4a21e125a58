[package]
name = "probe_run"
version = "0.1.0"
edition = "2021"
publish = false

[dependencies]
anyhow = "1"
arrayref = "0.3"
ctrlc = "3"
env_logger = "0.7"
gimli = "0.22"
log = "0.4"
probe-rs = "0.8"
probe-rs-rtt = "0.3"
rustc-demangle = "0.1"
structopt = "0.3"
xmas-elf = "0.7"
