[package]
name = "minmaxlttb"
version = "0.1.0"
edition = "2021"
publish = false

[dependencies]
argminmax = { version = "=0.6.3", default-features = false, features = ["float"] }
num-traits = "=0.2.19"

[dev-dependencies]
rand = "=0.10.3"
