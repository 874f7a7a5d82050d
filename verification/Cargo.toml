[package]
name = "bayesian_ridge"
version = "0.1.0"
edition = "2021"
publish = false

[dependencies]
linfa = "=0.8.1"
linfa-nn = "=0.8.1"
ndarray = "=0.16.1"
num-traits = "=0.2.19"
