[package]
name = "smolnn"
version = "0.1.0"
edition = "2021"
publish = false

[dependencies]
smolmatrix = "=0.1.9"
alea = "=0.2.2"
term_size = "=0.3.2"
