[package]
name = "cairo_vm"
version = "0.1.0"
edition = "2021"
publish = false

[dependencies]
num-bigint = "0.4"
num-integer = "0.1"
num-traits = "0.2"
starknet-crypto = "*"
sha2 = { version = "0.10", features = ["compress"] }
generic-array = "0.14"
serde = { version = "1", features = ["derive"] }
serde_json = "1"
parity-scale-codec = "3"
