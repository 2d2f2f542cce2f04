[package]
name = "credprobe"
version = "0.1.0"
edition = "2021"
publish = false

[dependencies]
clap = { version = "4", features = ["derive"] }
itertools = "*"
num_cpus = "1"
ssh2 = "*"
threadpool = "1"
