[package]
name = "city"
version = "0.1.0"
edition = "2021"
publish = false

[dependencies]
arrayvec = "0.5"
bounded-vec-deque = "*"
ctrlc = "3"
fastrand = "1"
term_size = "0.3"
