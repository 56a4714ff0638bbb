[package]
name = "sargon-mfa"
version = "0.1.0"
edition = "2021"
publish = false

[dependencies]
sha2 = "0.10"
async-trait = "0.1"
indexmap = "2"
itertools = "0.13"
log = "0.4"
