[package]
name = "rust_search"
version = "0.1.0"
edition = "2021"
publish = false

[dependencies]
ignore = "*"
regex = "*"
num_cpus = "*"
dirs = "*"
strsim = "*"

[dev-dependencies]
assert_fs = "*"
