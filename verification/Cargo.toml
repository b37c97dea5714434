[package]
name = "repo_sweep"
version = "0.1.0"
edition = "2021"
publish = false

[dependencies]
exitcode = "*"
shellwords = "*"
structopt = "*"
walkdir = "*"
