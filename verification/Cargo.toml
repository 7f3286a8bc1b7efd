[package]
name = "gridworld_rl"
version = "0.1.0"
edition = "2021"
publish = false

[dependencies]
rand = "*"
colored = "*"
plotly = "*"
