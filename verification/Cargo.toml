[package]
name = "fdf"
version = "0.1.0"
edition = "2021"
publish = false

[dependencies]
regex = "=1.13.1"
libc = "=0.2.191"
clap = { version = "=4.6.7", features = ["derive"] }
thread_local = "=1.1.10"
compile_time_ls_colours = "*"

[dev-dependencies]
rand = "=0.10.3"
