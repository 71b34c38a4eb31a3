[package]
name = "vacuum"
version = "0.1.0"
edition = "2021"
publish = false

[dependencies]
colored = "*"
dirs = "*"
glob = "0.3"

[dev-dependencies]
pom = "3"
