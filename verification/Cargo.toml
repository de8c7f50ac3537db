[package]
name = "fart"
version = "0.1.0"
edition = "2021"
publish = false

[dependencies]
slotmap = "=1.1.1"
svg = "=0.18.0"
euclid = "=0.22.14"
palette = "=0.4.1"
penlib = "=0.0.4"
structopt = "=0.3.26"
tide = "=0.16.0"
async-std = "=1.13.2"
async-trait = "=0.1.92"
futures = "=0.3.34"
chrono = "=0.4.45"
failure = "=0.1.8"
serde = "=1.0.229"
serde_json = "=1.0.154"
