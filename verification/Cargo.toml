[package]
name = "roomservice"
version = "0.1.0"
edition = "2021"
publish = false

[dependencies]
meowhash = "*"
digest = "*"
clap = "2"
colored = "*"
subprocess = "*"
ignore = "*"
rayon = "*"
serde = "1"
serde_derive = "1"
serde_yaml = "*"
