[package]
name = "inullify"
version = "0.1.0"
edition = "2021"
publish = false

[dependencies]
regex = "*"
inotify = "*"
getopts = "*"
time = { version = "*", features = ["formatting", "std"] }
