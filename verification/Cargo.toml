[package]
name = "zkdsl"
version = "0.1.0"
edition = "2021"
publish = false

[dependencies]
num-bigint = "*"
num-traits = "*"
rustyline = "*"
