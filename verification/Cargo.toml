[package]
name = "liboskar"
version = "0.1.0"
edition = "2021"
publish = false

[dependencies]
regex = "=1.13.1"
num_cpus = "=1.17.0"
clap = "=2.34.0"
colored = "=2.2.0"
crossbeam = "=0.4.1"
pad = "=0.1.6"
