[package]
name = "brillig_gen"
version = "0.1.0"
edition = "2021"
publish = false

[dependencies]
acvm = "*"
clap = { version = "4", features = ["derive"] }
termcolor = "1"
