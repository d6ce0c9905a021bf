[package]
name = "turbopack"
version = "0.1.0"
edition = "2021"
publish = false

[dependencies]
regex = "1"
url = "2"
swc_atoms = "*"
swc_common = "*"
swc_ecmascript = "*"
