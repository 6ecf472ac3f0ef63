[package]
name = "encode_broker"
version = "0.1.0"
edition = "2021"
publish = false

[dependencies]
crossbeam-channel = "0.5"
crossbeam-utils = "0.8"
log = "0.4"
nix = "0.23"
num_cpus = "1"
serde_json = "1"
textwrap = "0.14"
