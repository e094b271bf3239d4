[package]
name = "shell_core"
version = "0.1.0"
edition = "2021"
publish = false

[dependencies]
chrono = "0.4"
dirs = "*"
filetime = "0.2"
glob = "0.3"
hostname = "*"
which = "*"
