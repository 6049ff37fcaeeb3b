[package]
name = "portfolio_sim"
version = "0.1.0"
edition = "2021"
publish = false

[dependencies]
rand = "0.7"
plotlib = "0.5"
