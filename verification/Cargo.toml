[package]
name = "annealing"
version = "0.1.0"
edition = "2021"
publish = false

[dependencies]
clap = "*"
plotlib = "*"
rand = "*"
rand_distr = "*"
