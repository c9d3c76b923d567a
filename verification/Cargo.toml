[package]
name = "cidr"
version = "0.3.1"
edition = "2021"
publish = false

[dependencies]
bitstring = { version = "=0.2.1", features = ["bigendian"] }
serde = "=1.0.229"
