[package]
name = "mnist"
version = "0.1.0"
edition = "2021"

[dependencies]
clap = { version = "*", features = ["derive"] }
gnuplot = "*"
