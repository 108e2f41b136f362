[package]
name = "npdm"
version = "0.1.0"
edition = "2021"
publish = false

[dependencies]
bit_field = "0.10"
blz-nx = "1.0"
elf = "0.0.10"
hex = "0.4"
lz4 = "1.23"
pem = "0.8"
rand = "0.7"
rsa = "0.3"
serde = { version = "1", features = ["derive"] }
serde_json = "1"
sha2 = "0.9"
yasna = { version = "0.3", features = ["num-bigint"] }
