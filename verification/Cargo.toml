[package]
name = "solar_codegen"
version = "0.1.0"
edition = "2021"
publish = false

[dependencies]
alloy-primitives = "1"
smallvec = "1"
